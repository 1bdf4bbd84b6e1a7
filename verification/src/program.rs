//! Model of bridged programs: versioned instruction sequences, the one
//! instruction shape the bridge inspects, and the local call representation
//! that an admitted `Transact` must decode into.

use vstd::prelude::*;

verus! {

/// The authority kind a `Transact` instruction claims for its call.
#[derive(Clone, Copy, Debug, PartialEq, Eq, Structural)]
pub enum OriginKind {
    /// Execute as a native origin of the sending system.
    Native,
    /// Execute as the sovereign account of the sending location.
    SovereignAccount,
    /// Execute as the local root (superuser) origin.
    Superuser,
    /// Execute as a plain incoming-message origin.
    Xcm,
}

/// A two-dimensional weight budget: computation time and proof size.
#[derive(Clone, Copy, Debug, PartialEq, Eq, Structural)]
pub struct Weight {
    pub ref_time: u64,
    pub proof_size: u64,
}

/// One instruction of a current-version program.
///
/// Only the shapes that the bridge's admission policy and dispatcher read are
/// modelled; a blob carrying any other instruction is rejected by the codec.
#[derive(Clone, Debug, PartialEq, Eq)]
pub enum Instruction {
    /// Dispatch an encoded local call under a claimed authority kind.
    Transact { origin_kind: OriginKind, require_weight_at_most: Weight, call: Vec<u8> },
    /// Clear the origin register.
    ClearOrigin,
    /// A trailing correlation topic; bookkeeping only, never a decision input.
    SetTopic([u8; 32]),
}

/// Mathematical value of an [`Instruction`].
#[verifier::ext_equal]
pub ghost enum InstructionView {
    Transact { origin_kind: OriginKind, require_weight_at_most: Weight, call: Seq<u8> },
    ClearOrigin,
    SetTopic([u8; 32]),
}

impl View for Instruction {
    type V = InstructionView;

    open spec fn view(&self) -> InstructionView {
        match self {
            Instruction::Transact { origin_kind, require_weight_at_most, call } =>
                InstructionView::Transact {
                    origin_kind: *origin_kind,
                    require_weight_at_most: *require_weight_at_most,
                    call: call@,
                },
            Instruction::ClearOrigin => InstructionView::ClearOrigin,
            Instruction::SetTopic(t) => InstructionView::SetTopic(*t),
        }
    }
}

/// A current-version program: an ordered instruction sequence.
#[derive(Clone, Debug, PartialEq, Eq)]
pub struct Program {
    pub instructions: Vec<Instruction>,
}

impl View for Program {
    type V = Seq<InstructionView>;

    open spec fn view(&self) -> Seq<InstructionView> {
        self.instructions@.map_values(|i: Instruction| i@)
    }
}

/// One instruction of a previous-version program.
///
/// The older protocol carried a one-dimensional weight limit in `Transact`.
#[derive(Clone, Debug, PartialEq, Eq)]
pub enum InstructionV2 {
    Transact { origin_kind: OriginKind, require_weight_at_most: u64, call: Vec<u8> },
    ClearOrigin,
}

/// Mathematical value of an [`InstructionV2`].
#[verifier::ext_equal]
pub ghost enum InstructionV2View {
    Transact { origin_kind: OriginKind, require_weight_at_most: u64, call: Seq<u8> },
    ClearOrigin,
}

impl View for InstructionV2 {
    type V = InstructionV2View;

    open spec fn view(&self) -> InstructionV2View {
        match self {
            InstructionV2::Transact { origin_kind, require_weight_at_most, call } =>
                InstructionV2View::Transact {
                    origin_kind: *origin_kind,
                    require_weight_at_most: *require_weight_at_most,
                    call: call@,
                },
            InstructionV2::ClearOrigin => InstructionV2View::ClearOrigin,
        }
    }
}

/// A previous-version program.
#[derive(Clone, Debug, PartialEq, Eq)]
pub struct ProgramV2 {
    pub instructions: Vec<InstructionV2>,
}

impl View for ProgramV2 {
    type V = Seq<InstructionV2View>;

    open spec fn view(&self) -> Seq<InstructionV2View> {
        self.instructions@.map_values(|i: InstructionV2| i@)
    }
}

/// A program together with its protocol version tag.
#[derive(Clone, Debug, PartialEq, Eq)]
pub enum VersionedProgram {
    V2(ProgramV2),
    V3(Program),
}

/// Mathematical value of a [`VersionedProgram`].
#[verifier::ext_equal]
pub ghost enum VersionedProgramView {
    V2(Seq<InstructionV2View>),
    V3(Seq<InstructionView>),
}

impl View for VersionedProgram {
    type V = VersionedProgramView;

    open spec fn view(&self) -> VersionedProgramView {
        match self {
            VersionedProgram::V2(p) => VersionedProgramView::V2(p@),
            VersionedProgram::V3(p) => VersionedProgramView::V3(p@),
        }
    }
}

/// The local call representation an admitted `Transact` payload must decode
/// into. The two system calls that bridged governance traffic uses are
/// modelled; anything else is outside the admission policy's allow-list.
#[derive(Clone, Debug, PartialEq, Eq)]
pub enum LocalCall {
    /// A free-form note; no state change.
    Remark(Vec<u8>),
    /// Write the given key/value pairs into local storage.
    SetStorage(Vec<(Vec<u8>, Vec<u8>)>),
}

/// Mathematical value of a [`LocalCall`].
#[verifier::ext_equal]
pub ghost enum LocalCallView {
    Remark(Seq<u8>),
    SetStorage(Seq<(Seq<u8>, Seq<u8>)>),
}

impl View for LocalCall {
    type V = LocalCallView;

    open spec fn view(&self) -> LocalCallView {
        match self {
            LocalCall::Remark(bytes) => LocalCallView::Remark(bytes@),
            LocalCall::SetStorage(items) => LocalCallView::SetStorage(
                items@.map_values(|p: (Vec<u8>, Vec<u8>)| (p.0@, p.1@)),
            ),
        }
    }
}

/// Compares two byte vectors.
pub fn vec_u8_eq(a: &Vec<u8>, b: &Vec<u8>) -> (r: bool)
    ensures
        r == (a@ == b@),
{
    if a.len() != b.len() {
        assert(a@ != b@);
        return false;
    }
    let mut i: usize = 0;
    while i < a.len()
        invariant
            i <= a@.len(),
            a@.len() == b@.len(),
            forall|k: int| 0 <= k < i ==> a@[k] == b@[k],
        decreases a@.len() - i,
    {
        if a[i] != b[i] {
            assert(a@ != b@);
            return false;
        }
        i += 1;
    }
    assert(a@ =~= b@);
    true
}

/// Compares two local calls.
pub fn call_eq(a: &LocalCall, b: &LocalCall) -> (r: bool)
    ensures
        r == (a@ == b@),
{
    match (a, b) {
        (LocalCall::Remark(x), LocalCall::Remark(y)) => {
            let r = vec_u8_eq(x, y);
            proof {
                if r {
                    assert(a@ =~= b@);
                }
            }
            r
        },
        (LocalCall::SetStorage(x), LocalCall::SetStorage(y)) => {
            if x.len() != y.len() {
                assert(a@ != b@) by {
                    assert(a@->SetStorage_0.len() == x@.len());
                    assert(b@->SetStorage_0.len() == y@.len());
                }
                return false;
            }
            let mut i: usize = 0;
            while i < x.len()
                invariant
                    i <= x@.len(),
                    x@.len() == y@.len(),
                    a@ == LocalCall::SetStorage(*x)@,
                    b@ == LocalCall::SetStorage(*y)@,
                    forall|k: int|
                        0 <= k < i ==> (#[trigger] x@[k]).0@ == y@[k].0@ && x@[k].1@ == y@[k].1@,
                decreases x@.len() - i,
            {
                let xi = &x[i];
                let yi = &y[i];
                if !vec_u8_eq(&xi.0, &yi.0) || !vec_u8_eq(&xi.1, &yi.1) {
                    assert(a@ != b@) by {
                        assert(a@->SetStorage_0[i as int] == (x@[i as int].0@, x@[i as int].1@));
                        assert(b@->SetStorage_0[i as int] == (y@[i as int].0@, y@[i as int].1@));
                    }
                    return false;
                }
                i += 1;
            }
            proof {
                assert(a@->SetStorage_0 =~= b@->SetStorage_0) by {
                    assert(forall|k: int|
                        0 <= k < x@.len() ==> #[trigger] a@->SetStorage_0[k] == (
                        x@[k].0@,
                        x@[k].1@,
                        ) && #[trigger] b@->SetStorage_0[k] == (y@[k].0@, y@[k].1@));
                }
                assert(a@ =~= b@);
            }
            true
        },
        _ => {
            assert(a@ != b@);
            false
        },
    }
}

} // verus!
