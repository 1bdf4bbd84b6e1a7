//! Admission policy: the predicate that decides whether a bridged program may
//! execute at all.
//!
//! A program is admitted exactly when its presenting sender is an allow-listed
//! location and, after a trailing correlation topic is stripped, it consists
//! of a single `Transact` asserting superuser authority whose payload decodes
//! into an allow-listed local call. The policy never inspects or reserves
//! payment: whatever it admits runs unpaid.

use vstd::prelude::*;

use crate::codec::sdec_call;
use crate::decode::decode_call;
use crate::location::{location_eq, Location, LocationView};
use crate::program::{call_eq, Instruction, InstructionView, LocalCall, OriginKind, Weight};

verus! {

/// Why a program is turned away before execution.
#[derive(Clone, Copy, Debug, PartialEq, Eq, Structural)]
pub enum ProcessMessageError {
    /// The instruction sequence or its call violates the policy's shape.
    BadFormat,
    /// The presenting sender is not an allow-listed location.
    Unsupported,
}

/// Mutable registers the barrier may fill while judging a program.
#[derive(Clone, Copy, Debug, PartialEq, Eq)]
pub struct Properties {
    /// Correlation topic taken from a trailing `SetTopic`, if any.
    pub message_id: Option<[u8; 32]>,
}

/// Holds when `origin` equals one of the allow-listed locations.
pub open spec fn spec_origin_allowed(list: Seq<Location>, origin: LocationView) -> bool {
    exists|k: int| 0 <= k < list.len() && list[k]@ == origin
}

/// Holds when `call` equals one of the allow-listed calls.
pub open spec fn spec_call_allowed(list: Seq<LocalCall>, call: crate::program::LocalCallView) -> bool {
    exists|k: int| 0 <= k < list.len() && list[k]@ == call
}

/// The program with a trailing correlation topic removed; all other programs
/// are left as they are.
pub open spec fn spec_strip_topic(instructions: Seq<InstructionView>) -> Seq<InstructionView> {
    if instructions.len() > 0 && instructions.last() is SetTopic {
        instructions.drop_last()
    } else {
        instructions
    }
}

/// The correlation topic of a program, carried by a trailing `SetTopic`.
pub open spec fn spec_topic_of(instructions: Seq<InstructionView>) -> Option<[u8; 32]> {
    if instructions.len() > 0 && instructions.last() is SetTopic {
        Some(instructions.last()->SetTopic_0)
    } else {
        None
    }
}

/// The admission predicate: sender allow-listed, exactly one effective
/// instruction, a superuser `Transact`, and a decodable, allow-listed call.
pub open spec fn spec_admitted(
    origin: LocationView,
    instructions: Seq<InstructionView>,
    allowed_origins: Seq<Location>,
    allowed_calls: Seq<LocalCall>,
) -> bool {
    let eff = spec_strip_topic(instructions);
    &&& spec_origin_allowed(allowed_origins, origin)
    &&& eff.len() == 1
    &&& eff[0] is Transact
    &&& eff[0]->Transact_origin_kind == OriginKind::Superuser
    &&& sdec_call(eff[0]->Transact_call) matches Ok(c) && spec_call_allowed(allowed_calls, c)
}

/// Returns whether `origin` is on the allow-list.
pub fn origin_allowed(list: &Vec<Location>, origin: &Location) -> (r: bool)
    ensures
        r == spec_origin_allowed(list@, origin@),
{
    let mut i: usize = 0;
    while i < list.len()
        invariant
            i <= list@.len(),
            forall|k: int| 0 <= k < i ==> (#[trigger] list@[k])@ != origin@,
        decreases list@.len() - i,
    {
        if location_eq(&list[i], origin) {
            return true;
        }
        i += 1;
    }
    false
}

/// Returns whether `call` is on the allow-list.
pub fn call_allowed(list: &Vec<LocalCall>, call: &LocalCall) -> (r: bool)
    ensures
        r == spec_call_allowed(list@, call@),
{
    let mut i: usize = 0;
    while i < list.len()
        invariant
            i <= list@.len(),
            forall|k: int| 0 <= k < i ==> (#[trigger] list@[k])@ != call@,
        decreases list@.len() - i,
    {
        if call_eq(&list[i], call) {
            return true;
        }
        i += 1;
    }
    false
}

/// Allows execution exactly for allow-listed senders presenting a single
/// superuser `Transact` with an allow-listed call.
pub struct AllowUnpaidTransactsFrom {
    /// Locations whose programs may execute, unpaid.
    pub allowed_origins: Vec<Location>,
    /// Local calls such a program may dispatch.
    pub allowed_calls: Vec<LocalCall>,
}

impl AllowUnpaidTransactsFrom {
    /// Judges one program. Returns `Ok` exactly when [`spec_admitted`] holds;
    /// a sender outside the allow-list fails with `Unsupported` and every
    /// other violation fails with `BadFormat`. A trailing correlation topic
    /// is recorded in `properties` whatever the verdict; `max_weight` is the
    /// host's ceiling and, as this chain does not meter the administrative
    /// inbound path, never a reason to reject.
    pub fn should_execute(
        &self,
        origin: &Location,
        instructions: &Vec<Instruction>,
        max_weight: Weight,
        properties: &mut Properties,
    ) -> (r: Result<(), ProcessMessageError>)
        ensures
            r is Ok <==> spec_admitted(
                origin@,
                instructions@.map_values(|i: Instruction| i@),
                self.allowed_origins@,
                self.allowed_calls@,
            ),
            r is Err ==> (r->Err_0 == ProcessMessageError::Unsupported <==> !spec_origin_allowed(
                self.allowed_origins@,
                origin@,
            )),
            final(properties).message_id == (match spec_topic_of(
                instructions@.map_values(|i: Instruction| i@),
            ) {
                Some(t) => Some(t),
                None => old(properties).message_id,
            }),
    {
        let ghost views = instructions@.map_values(|i: Instruction| i@);
        let len = instructions.len();
        let effective_len: usize = if len > 0 {
            match &instructions[len - 1] {
                Instruction::SetTopic(t) => {
                    properties.message_id = Some(*t);
                    len - 1
                },
                _ => len,
            }
        } else {
            len
        };
        proof {
            assert(views.len() == len);
            if len > 0 {
                assert(views.last() == views[len - 1]);
            }
            if effective_len < len {
                assert(spec_strip_topic(views) =~= views.subrange(0, effective_len as int));
            } else {
                assert(spec_strip_topic(views) =~= views.subrange(0, effective_len as int));
            }
        }
        if !origin_allowed(&self.allowed_origins, origin) {
            return Err(ProcessMessageError::Unsupported);
        }
        if effective_len != 1 {
            return Err(ProcessMessageError::BadFormat);
        }
        proof {
            assert(spec_strip_topic(views)[0] == views[0]);
        }
        match &instructions[0] {
            Instruction::Transact { origin_kind: OriginKind::Superuser, call, .. } => {
                let decoded = match decode_call(call) {
                    Ok(c) => c,
                    Err(_) => {
                        return Err(ProcessMessageError::BadFormat);
                    },
                };
                if call_allowed(&self.allowed_calls, &decoded) {
                    Ok(())
                } else {
                    Err(ProcessMessageError::BadFormat)
                }
            },
            _ => Err(ProcessMessageError::BadFormat),
        }
    }
}

/// Admission strictness: for an admitted message, independently varying the
/// sender, the instruction count, the instruction kind, the authority kind,
/// or the call each flips the verdict to rejection.
pub proof fn lemma_admission_strictness(
    origin: LocationView,
    instructions: Seq<InstructionView>,
    other_origin: LocationView,
    other_instructions: Seq<InstructionView>,
    allowed_origins: Seq<Location>,
    allowed_calls: Seq<LocalCall>,
)
    requires
        spec_admitted(origin, instructions, allowed_origins, allowed_calls),
    ensures
        !spec_origin_allowed(allowed_origins, other_origin) ==> !spec_admitted(
            other_origin,
            instructions,
            allowed_origins,
            allowed_calls,
        ),
        spec_strip_topic(other_instructions).len() != 1 ==> !spec_admitted(
            origin,
            other_instructions,
            allowed_origins,
            allowed_calls,
        ),
        (spec_strip_topic(other_instructions).len() == 1 && !(spec_strip_topic(
            other_instructions,
        )[0] is Transact)) ==> !spec_admitted(
            origin,
            other_instructions,
            allowed_origins,
            allowed_calls,
        ),
        (spec_strip_topic(other_instructions).len() == 1 && spec_strip_topic(
            other_instructions,
        )[0] is Transact && spec_strip_topic(other_instructions)[0]->Transact_origin_kind
            != OriginKind::Superuser) ==> !spec_admitted(
            origin,
            other_instructions,
            allowed_origins,
            allowed_calls,
        ),
        (spec_strip_topic(other_instructions).len() == 1 && spec_strip_topic(
            other_instructions,
        )[0] is Transact && (match sdec_call(
            spec_strip_topic(other_instructions)[0]->Transact_call,
        ) {
            Ok(c) => !spec_call_allowed(allowed_calls, c),
            Err(_) => true,
        })) ==> !spec_admitted(origin, other_instructions, allowed_origins, allowed_calls),
{
}

} // verus!
