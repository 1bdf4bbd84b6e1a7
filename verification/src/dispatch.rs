//! Dispatcher: orchestrates decoding, destination resolution, version
//! normalization, admission and origin conversion for inbound blobs, and
//! packages outbound programs for the one configured lane.
//!
//! The dispatcher only decides; executing an admitted call against local
//! state is the host executor's mechanism. Inbound administrative dispatch is
//! deliberately granted an unbounded weight ceiling — a known gap kept as the
//! system defines it, not corrected here.

use vstd::prelude::*;

use crate::barrier::{
    spec_admitted, spec_origin_allowed, spec_strip_topic, spec_topic_of, AllowUnpaidTransactsFrom,
    ProcessMessageError, Properties,
};
use crate::codec::{sdec_call, sdec_message, seq_to_bytes32, spec_enc_message, spec_enc_program};
use crate::decode::{decode_call, decode_message};
use crate::encode::{encode_message, encode_program};
use crate::hashing::{blake2_256, blake2_256_of};
use crate::location::{location_eq, InteriorLocation, Junction, Location, LocationView, NetworkId};
use crate::origin::{KawabungaParachainAsRoot, LocalOrigin};
use crate::program::{
    Instruction, InstructionView, LocalCall, LocalCallView, OriginKind, Program, VersionedProgram,
    VersionedProgramView, Weight,
};
use crate::resolver::{resolve, spec_universal, ResolveError};

verus! {

broadcast use vstd::array::group_array_axioms;

/// A fixed-width identifier of one logical message lane between the two
/// bridged networks. Opaque: no ordering of its own.
#[derive(Clone, Copy, Debug, PartialEq, Eq)]
pub struct LaneId(pub [u8; 4]);

/// The lane that this bridge instance sends and receives on.
pub fn xcm_lane() -> (r: LaneId)
    ensures
        r.0@ =~= seq![0u8, 0u8, 0u8, 0u8],
{
    LaneId([0; 4])
}

/// Explicit bridge configuration, passed to every decision instead of being
/// read from ambient storage.
pub struct BridgeConfig {
    /// The local network's own identity.
    pub local_network: NetworkId,
    /// The one remote location this bridge trusts and routes to.
    pub bridged_location: Location,
    /// The lane toward the bridged network.
    pub lane: LaneId,
    /// The admission policy for inbound programs.
    pub barrier: AllowUnpaidTransactsFrom,
}

impl BridgeConfig {
    pub open spec fn wf(&self) -> bool {
        self.bridged_location.wf()
    }
}

/// Why an inbound message is rejected.
#[derive(Clone, Copy, Debug, PartialEq, Eq, Structural)]
pub enum RejectReason {
    /// The blob is not a well-formed bridge message.
    InvalidEncoding,
    /// The program is carried under a version this chain no longer executes.
    UnsupportedVersion,
    /// The destination does not start at the global scope.
    NonUniversalDestination,
    /// The destination names another global network.
    WrongGlobal,
    /// The presenting sender is not an allow-listed location.
    UnsupportedOrigin,
    /// The program's shape or call violates the admission policy.
    BadFormat,
    /// The sender passed admission but converts to no local origin.
    SenderNotConvertible,
    /// The executor failed after admission.
    RoutingError,
}

/// Terminal outcome of one inbound message.
#[derive(Clone, Copy, Debug, PartialEq, Eq, Structural)]
pub enum DispatchOutcome {
    /// The program ran to completion.
    Executed,
    /// The message produced no local state change.
    Rejected(RejectReason),
}

/// What the dispatcher decides for one inbound blob: hand one validated call
/// to the executor under a local origin, or reject.
#[derive(Clone, Debug, PartialEq, Eq)]
pub enum InboundAction {
    Execute {
        /// The local authority the call runs under.
        origin: LocalOrigin,
        /// The validated, decoded call.
        call: LocalCall,
        /// The weight the call itself declared.
        weight_limit: Weight,
        /// Correlation identifier: the trailing topic if the program carried
        /// one, else a digest of the encoded program.
        message_id: [u8; 32],
    },
    Reject(RejectReason),
}

/// Mathematical value of an [`InboundAction`].
#[verifier::ext_equal]
pub ghost enum InboundActionView {
    Execute {
        origin: LocalOrigin,
        call: LocalCallView,
        weight_limit: Weight,
        message_id: [u8; 32],
    },
    Reject(RejectReason),
}

impl View for InboundAction {
    type V = InboundActionView;

    open spec fn view(&self) -> InboundActionView {
        match self {
            InboundAction::Execute { origin, call, weight_limit, message_id } =>
                InboundActionView::Execute {
                    origin: *origin,
                    call: call@,
                    weight_limit: *weight_limit,
                    message_id: *message_id,
                },
            InboundAction::Reject(r) => InboundActionView::Reject(*r),
        }
    }
}

/// The content-derived identifier of a program: a digest of its encoding.
pub open spec fn spec_message_id(instructions: Seq<InstructionView>) -> [u8; 32] {
    seq_to_bytes32(blake2_256_of(spec_enc_program(instructions)))
}

/// The decision the dispatcher owes for a blob presented by `sender`.
pub open spec fn spec_inbound_action(blob: Seq<u8>, sender: LocationView, cfg: BridgeConfig) -> InboundActionView {
    match sdec_message(blob) {
        Err(_) => InboundActionView::Reject(RejectReason::InvalidEncoding),
        Ok((dest, vprog)) => if !spec_universal(dest) {
            InboundActionView::Reject(RejectReason::NonUniversalDestination)
        } else if dest[0]->GlobalConsensus_0 != cfg.local_network {
            InboundActionView::Reject(RejectReason::WrongGlobal)
        } else {
            match vprog {
                VersionedProgramView::V2(_) => InboundActionView::Reject(
                    RejectReason::UnsupportedVersion,
                ),
                VersionedProgramView::V3(instrs) => if !spec_admitted(
                    sender,
                    instrs,
                    cfg.barrier.allowed_origins@,
                    cfg.barrier.allowed_calls@,
                ) {
                    if !spec_origin_allowed(cfg.barrier.allowed_origins@, sender) {
                        InboundActionView::Reject(RejectReason::UnsupportedOrigin)
                    } else {
                        InboundActionView::Reject(RejectReason::BadFormat)
                    }
                } else if sender != cfg.bridged_location@ {
                    InboundActionView::Reject(RejectReason::SenderNotConvertible)
                } else {
                    let eff = spec_strip_topic(instrs);
                    InboundActionView::Execute {
                        origin: LocalOrigin::Root,
                        call: sdec_call(eff[0]->Transact_call)->Ok_0,
                        weight_limit: eff[0]->Transact_require_weight_at_most,
                        message_id: match spec_topic_of(instrs) {
                            Some(t) => t,
                            None => spec_message_id(instrs),
                        },
                    }
                },
            }
        },
    }
}

/// Copies a location.
fn clone_location(l: &Location) -> (r: Location)
    ensures
        r@ == l@,
{
    let mut junctions: Vec<Junction> = Vec::new();
    let mut i: usize = 0;
    while i < l.interior.junctions.len()
        invariant
            i <= l.interior.junctions@.len(),
            junctions@ =~= l.interior.junctions@.subrange(0, i as int),
        decreases l.interior.junctions@.len() - i,
    {
        junctions.push(l.interior.junctions[i]);
        proof {
            assert(junctions@ =~= l.interior.junctions@.subrange(0, i + 1));
        }
        i += 1;
    }
    proof {
        assert(junctions@ =~= l.interior.junctions@);
    }
    let r = Location { parents: l.parents, interior: InteriorLocation { junctions } };
    proof {
        assert(r@ =~= l@);
    }
    r
}

/// Dispatcher that validates an inbound blob and decides its execution at
/// this chain, instead of forwarding it further.
pub struct ImmediateXcmDispatcher;

impl ImmediateXcmDispatcher {
    /// Decides one inbound blob, exactly as [`spec_inbound_action`] says:
    /// decode, resolve the destination against the local network, normalize
    /// the program version, admit through the barrier, convert the sender to
    /// a local origin, and hand the validated call out for execution.
    pub fn dispatch_blob(blob: &Vec<u8>, sender: &Location, cfg: &BridgeConfig) -> (a: InboundAction)
        ensures
            a@ == spec_inbound_action(blob@, sender@, *cfg),
    {
        let (dest, vprog) = match decode_message(blob) {
            Ok(p) => p,
            Err(_) => {
                return InboundAction::Reject(RejectReason::InvalidEncoding);
            },
        };
        match resolve(&dest, &cfg.local_network) {
            Err(ResolveError::NonUniversal) => {
                return InboundAction::Reject(RejectReason::NonUniversalDestination);
            },
            Err(ResolveError::WrongGlobal) => {
                return InboundAction::Reject(RejectReason::WrongGlobal);
            },
            Ok(()) => {},
        }
        let prog = match vprog {
            VersionedProgram::V2(_) => {
                return InboundAction::Reject(RejectReason::UnsupportedVersion);
            },
            VersionedProgram::V3(p) => p,
        };
        let mut properties = Properties { message_id: None };
        let max_weight = Weight { ref_time: u64::MAX, proof_size: u64::MAX };
        match cfg.barrier.should_execute(sender, &prog.instructions, max_weight, &mut properties) {
            Err(ProcessMessageError::Unsupported) => {
                return InboundAction::Reject(RejectReason::UnsupportedOrigin);
            },
            Err(ProcessMessageError::BadFormat) => {
                return InboundAction::Reject(RejectReason::BadFormat);
            },
            Ok(()) => {},
        }
        let origin = match KawabungaParachainAsRoot::convert_origin(
            clone_location(sender),
            OriginKind::Superuser,
            &cfg.bridged_location,
        ) {
            Ok(o) => o,
            Err(_) => {
                return InboundAction::Reject(RejectReason::SenderNotConvertible);
            },
        };
        let ghost views = prog.instructions@.map_values(|x: Instruction| x@);
        proof {
            assert(spec_strip_topic(views)[0] == views[0]);
        }
        let (weight_limit, call_bytes) = match &prog.instructions[0] {
            Instruction::Transact { require_weight_at_most, call, .. } => (
                *require_weight_at_most,
                call,
            ),
            _ => {
                proof {
                    assert(false);
                }
                return InboundAction::Reject(RejectReason::BadFormat);
            },
        };
        let call = match decode_call(call_bytes) {
            Ok(c) => c,
            Err(_) => {
                proof {
                    assert(false);
                }
                return InboundAction::Reject(RejectReason::BadFormat);
            },
        };
        let message_id: [u8; 32] = match properties.message_id {
            Some(t) => t,
            None => {
                let mut encoded: Vec<u8> = Vec::new();
                encode_program(&prog, &mut encoded);
                let digest = blake2_256(&encoded);
                proof {
                    crate::codec::lemma_seq_to_bytes32(digest);
                }
                digest
            },
        };
        InboundAction::Execute { origin, call, weight_limit, message_id }
    }
}

/// Maps the executor's verdict on a decided action to the terminal outcome:
/// an admitted program that ran to completion is `Executed`, one the executor
/// failed on is `Rejected(RoutingError)`, and a rejected action keeps its
/// reason.
pub fn outcome_of(action: &InboundAction, executor_complete: bool) -> (r: DispatchOutcome)
    ensures
        action@ is Execute && executor_complete ==> r == DispatchOutcome::Executed,
        action@ is Execute && !executor_complete ==> r == DispatchOutcome::Rejected(
            RejectReason::RoutingError,
        ),
        action@ is Reject ==> r == DispatchOutcome::Rejected(action@->Reject_0),
{
    match action {
        InboundAction::Execute { .. } => if executor_complete {
            DispatchOutcome::Executed
        } else {
            DispatchOutcome::Rejected(RejectReason::RoutingError)
        },
        InboundAction::Reject(why) => DispatchOutcome::Rejected(*why),
    }
}

/// Why an outbound message cannot be sent.
#[derive(Clone, Copy, Debug, PartialEq, Eq, Structural)]
pub enum RouteError {
    /// The destination is not the one bridged location this chain can reach.
    Unroutable,
}

/// An outbound message packaged for the external messaging layer.
#[derive(Clone, Debug, PartialEq, Eq)]
pub struct OutboundPackage {
    /// The lane the message travels on.
    pub lane: LaneId,
    /// The encoded `(destination, program)` blob.
    pub payload: Vec<u8>,
    /// Content-derived identifier of the program, for correlation.
    pub message_id: [u8; 32],
}

/// Mathematical value of an [`OutboundPackage`].
#[verifier::ext_equal]
pub ghost struct OutboundPackageView {
    pub lane: LaneId,
    pub payload: Seq<u8>,
    pub message_id: [u8; 32],
}

impl View for OutboundPackage {
    type V = OutboundPackageView;

    open spec fn view(&self) -> OutboundPackageView {
        OutboundPackageView { lane: self.lane, payload: self.payload@, message_id: self.message_id }
    }
}

/// The blob an outbound program is packaged into: the destination's interior
/// path under the current version, then the program.
pub open spec fn spec_outbound_payload(dest: LocationView, prog: Seq<InstructionView>) -> Seq<u8> {
    spec_enc_message(dest.interior, VersionedProgramView::V3(prog))
}

/// Packages `program` for the one bridged destination and attaches the
/// configured lane; any other destination fails with `Unroutable`, with no
/// partial packaging.
pub fn dispatch_outbound(dest: &Location, program: &Program, cfg: &BridgeConfig) -> (r: Result<
    OutboundPackage,
    RouteError,
>)
    requires
        cfg.wf(),
    ensures
        r is Ok <==> dest@ == cfg.bridged_location@,
        r matches Ok(p) ==> p@.lane == cfg.lane && p@.payload == spec_outbound_payload(
            dest@,
            program@,
        ) && p@.message_id == spec_message_id(program@),
        r is Err ==> r->Err_0 == RouteError::Unroutable,
{
    if !location_eq(dest, &cfg.bridged_location) {
        return Err(RouteError::Unroutable);
    }
    let copy = Program { instructions: clone_instructions(&program.instructions) };
    let mut encoded_program: Vec<u8> = Vec::new();
    encode_program(&copy, &mut encoded_program);
    let versioned = VersionedProgram::V3(copy);
    proof {
        assert(dest.interior.wf());
    }
    let payload = encode_message(&dest.interior, &versioned);
    let digest = blake2_256(&encoded_program);
    proof {
        crate::codec::lemma_seq_to_bytes32(digest);
    }
    Ok(OutboundPackage { lane: cfg.lane, payload, message_id: digest })
}

/// Copies an instruction sequence.
fn clone_instructions(l: &Vec<Instruction>) -> (r: Vec<Instruction>)
    ensures
        r@.map_values(|x: Instruction| x@) == l@.map_values(|x: Instruction| x@),
{
    let mut out: Vec<Instruction> = Vec::new();
    let mut i: usize = 0;
    while i < l.len()
        invariant
            i <= l@.len(),
            out@.len() == i,
            forall|k: int| 0 <= k < i ==> (#[trigger] out@[k])@ == l@[k]@,
        decreases l@.len() - i,
    {
        let copy = match &l[i] {
            Instruction::Transact { origin_kind, require_weight_at_most, call } =>
                Instruction::Transact {
                    origin_kind: *origin_kind,
                    require_weight_at_most: *require_weight_at_most,
                    call: clone_bytes(call),
                },
            Instruction::ClearOrigin => Instruction::ClearOrigin,
            Instruction::SetTopic(t) => Instruction::SetTopic(*t),
        };
        proof {
            assert(copy@ == l@[i as int]@);
        }
        out.push(copy);
        i += 1;
    }
    proof {
        assert(out@.map_values(|x: Instruction| x@) =~= l@.map_values(|x: Instruction| x@));
    }
    out
}

/// Copies a byte string.
fn clone_bytes(b: &Vec<u8>) -> (r: Vec<u8>)
    ensures
        r@ == b@,
{
    let mut out: Vec<u8> = Vec::new();
    let mut i: usize = 0;
    while i < b.len()
        invariant
            i <= b@.len(),
            out@ =~= b@.subrange(0, i as int),
        decreases b@.len() - i,
    {
        out.push(b[i]);
        proof {
            assert(out@ =~= b@.subrange(0, i + 1));
        }
        i += 1;
    }
    proof {
        assert(out@ =~= b@);
    }
    out
}

/// The encoded probe call that the dummy outbound message carries: a storage
/// write of one key/value pair.
pub fn dummy_call_bytes() -> (r: Vec<u8>)
    ensures
        r@ == spec_dummy_call_bytes(),
{
    let r = vec![
        0x00u8, 0x04, 0x04, 0x20, 0x74, 0x65, 0x73, 0x74, 0x5f, 0x6b, 0x65, 0x79, 0x28, 0x74,
        0x65, 0x73, 0x74, 0x5f, 0x76, 0x61, 0x6c, 0x75, 0x65,
    ];
    proof {
        assert(r@ =~= spec_dummy_call_bytes());
    }
    r
}

pub open spec fn spec_dummy_call_bytes() -> Seq<u8> {
    seq![
        0x00u8, 0x04, 0x04, 0x20, 0x74, 0x65, 0x73, 0x74, 0x5f, 0x6b, 0x65, 0x79, 0x28, 0x74,
        0x65, 0x73, 0x74, 0x5f, 0x76, 0x61, 0x6c, 0x75, 0x65,
    ]
}

/// The single instruction of the dummy outbound message.
pub open spec fn spec_dummy_instruction() -> InstructionView {
    InstructionView::Transact {
        origin_kind: OriginKind::Superuser,
        require_weight_at_most: Weight { ref_time: 20_000_000_000, proof_size: 8000 },
        call: spec_dummy_call_bytes(),
    }
}

/// Builds and routes a fixed probe message toward the bridged network: one
/// superuser `Transact` carrying [`spec_dummy_instruction`], addressed to the
/// configured bridged location.
pub fn send_dummy_message(cfg: &BridgeConfig) -> (r: Result<OutboundPackage, RouteError>)
    requires
        cfg.wf(),
    ensures
        r is Ok,
        r matches Ok(p) ==> p@.lane == cfg.lane && p@.payload == spec_outbound_payload(
            cfg.bridged_location@,
            seq![spec_dummy_instruction()],
        ) && p@.message_id == spec_message_id(seq![spec_dummy_instruction()]),
{
    let call = dummy_call_bytes();
    let weight = Weight { ref_time: 20_000_000_000, proof_size: 8000 };
    let mut instructions: Vec<Instruction> = Vec::new();
    instructions.push(Instruction::Transact {
        origin_kind: OriginKind::Superuser,
        require_weight_at_most: weight,
        call,
    });
    let program = Program { instructions };
    proof {
        assert(program@ =~= seq![spec_dummy_instruction()]);
    }
    let destination = clone_location(&cfg.bridged_location);
    let r = dispatch_outbound(&destination, &program, cfg);
    proof {
        assert(destination@ == cfg.bridged_location@);
    }
    r
}

} // verus!
