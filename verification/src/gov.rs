//! The governance state machine: an operation is checked for quorum,
//! decoded, held against the protocol it was sent to, and applied to the
//! registry, or rejected with the registry left as it was.

use vstd::prelude::*;
use crate::bytes::array_eq;
use crate::bytes::vec_eq;
use crate::bytes::vec_from_array;
use crate::bytes::zero_bytes;
use crate::bytes::EthAddress;
use crate::codec::decode;
use crate::codec::decoded_operation;
use crate::codec::lemma_decoding_errors;
use crate::codec::GovAction;
use crate::codec::GovActionView;
use crate::codec::GovOperation;
use crate::codec::GovOperationView;
use crate::codec::OperationData;
use crate::codec::OperationDataView;
use crate::error::GovError;
use crate::quorum::distinct_count;
use crate::quorum::distinct_signers;
use crate::quorum::has_quorum;
use crate::quorum::quorum_reached;
use crate::registry::ProtocolInfo;
use crate::registry::ProtocolInfoView;
use crate::seqs::difference;
use crate::seqs::lemma_difference_disjoint;
use crate::seqs::lemma_difference_idempotent;
use crate::seqs::lemma_filter_no_duplicates;
use crate::seqs::lemma_insert_unique;
use crate::seqs::lemma_moved_to_end_idempotent;
use crate::seqs::lemma_union_unique;
use crate::seqs::lemma_union_unique_exceeds;
use crate::seqs::lemma_union_unique_idempotent;
use crate::seqs::lemma_without_absent;
use crate::seqs::lemma_without_idempotent;
use crate::seqs::is_not;
use crate::seqs::not_in;
use crate::seqs::moved_to_end;
use crate::seqs::union_unique;
use crate::seqs::without;
use crate::signed::signature_views;
use crate::signed::signers;
use crate::signed::signers_of;
use crate::signed::KeeperSignature;
use crate::signed::SignedOperation;
use crate::signed::SignedOperationView;

verus! {

/// The registry after an action, or the reason why the action cannot be
/// applied.
pub open spec fn applied(info: ProtocolInfoView, action: GovActionView) -> Result<
    ProtocolInfoView,
    GovError,
> {
    match action {
        GovActionView::AddAllowedProtocol { consensus_target_rate, protocol_fee, keepers } => {
            let members = union_unique(Seq::<EthAddress>::empty(), keepers);
            if members.len() <= info.keeper_capacity {
                Ok(
                    ProtocolInfoView {
                        is_init: true,
                        consensus_target_rate,
                        protocol_fee,
                        keepers: members,
                        ..info
                    },
                )
            } else {
                Err(GovError::CapacityExceeded)
            }
        },
        GovActionView::AddAllowedProtocolAddress { protocol_address } => Ok(
            ProtocolInfoView { protocol_address, ..info },
        ),
        GovActionView::RemoveAllowedProtocolAddress { .. } => Ok(
            ProtocolInfoView { protocol_address: zero_bytes::<32>(), ..info },
        ),
        GovActionView::AddAllowedProposerAddress { .. } => Ok(info),
        GovActionView::RemoveAllowedProposerAddress { .. } => Ok(info),
        GovActionView::AddExecutor { executor } => {
            if without(info.executors, executor).len() < info.executor_capacity {
                Ok(ProtocolInfoView { executors: moved_to_end(info.executors, executor), ..info })
            } else {
                Err(GovError::CapacityExceeded)
            }
        },
        GovActionView::RemoveExecutor { executor } => Ok(
            ProtocolInfoView { executors: without(info.executors, executor), ..info },
        ),
        GovActionView::AddKeeper { keepers } => {
            let members = union_unique(info.keepers, keepers);
            if members.len() <= info.keeper_capacity {
                Ok(ProtocolInfoView { keepers: members, ..info })
            } else {
                Err(GovError::CapacityExceeded)
            }
        },
        GovActionView::RemoveKeeper { keepers } => Ok(
            ProtocolInfoView { keepers: difference(info.keepers, keepers), ..info },
        ),
        GovActionView::SetConsensusTargetRate { consensus_target_rate } => Ok(
            ProtocolInfoView { consensus_target_rate, ..info },
        ),
        GovActionView::SetProtocolFee { protocol_fee } => Ok(
            ProtocolInfoView { protocol_fee, ..info },
        ),
    }
}

/// The registry after a decoded operation sent to the protocol `target`.
/// An operation meant for another protocol is `TargetProtocolMismatch`.
pub open spec fn executed(info: ProtocolInfoView, op: GovOperationView, target: Seq<u8>) -> Result<
    ProtocolInfoView,
    GovError,
> {
    if op.protocol_id@ != target {
        Err(GovError::TargetProtocolMismatch)
    } else {
        applied(info, op.action)
    }
}

/// The registry after an operation given by selector and calldata.
pub open spec fn handled(info: ProtocolInfoView, data: OperationDataView, target: Seq<u8>) -> Result<
    ProtocolInfoView,
    GovError,
> {
    match decoded_operation(data) {
        Err(e) => Err(e),
        Ok(op) => executed(info, op, target),
    }
}

/// What a call that was to bring the registry from `before` to `outcome`
/// did: on success the registry is the one that `outcome` holds; on failure
/// the error is the one that `outcome` holds, and the registry is unchanged.
pub open spec fn outcome_met(
    before: ProtocolInfoView,
    after: ProtocolInfoView,
    r: Result<(), GovError>,
    outcome: Result<ProtocolInfoView, GovError>,
) -> bool {
    match outcome {
        Ok(next) => r is Ok && after == next,
        Err(e) => r == Err::<(), GovError>(e) && after == before,
    }
}

/// Applies an action to the registry. On failure the registry is unchanged.
pub fn apply_action(info: &mut ProtocolInfo, action: &GovAction) -> (r: Result<(), GovError>)
    requires
        old(info).wf(),
    ensures
        final(info).wf(),
        outcome_met(old(info)@, final(info)@, r, applied(old(info)@, action@)),
{
    match action {
        GovAction::AddAllowedProtocol { consensus_target_rate, protocol_fee, keepers } => {
            match info.keepers.replace_with(keepers) {
                Ok(()) => {
                    info.is_init = true;
                    info.consensus_target_rate = *consensus_target_rate;
                    info.protocol_fee = *protocol_fee;
                    Ok(())
                },
                Err(e) => Err(e),
            }
        },
        GovAction::AddAllowedProtocolAddress { protocol_address } => {
            info.protocol_address = *protocol_address;
            Ok(())
        },
        GovAction::RemoveAllowedProtocolAddress { .. } => {
            info.protocol_address = [0u8; 32];
            Ok(())
        },
        GovAction::AddAllowedProposerAddress { .. } => Ok(()),
        GovAction::RemoveAllowedProposerAddress { .. } => Ok(()),
        GovAction::AddExecutor { executor } => info.executors.move_to_end(*executor),
        GovAction::RemoveExecutor { executor } => {
            info.executors.remove_all(executor);
            Ok(())
        },
        GovAction::AddKeeper { keepers } => info.keepers.extend_unique(keepers),
        GovAction::RemoveKeeper { keepers } => {
            info.keepers.remove_each(keepers);
            Ok(())
        },
        GovAction::SetConsensusTargetRate { consensus_target_rate } => {
            info.consensus_target_rate = *consensus_target_rate;
            Ok(())
        },
        GovAction::SetProtocolFee { protocol_fee } => {
            info.protocol_fee = *protocol_fee;
            Ok(())
        },
    }
}

/// Applies a decoded operation that was sent to the protocol
/// `target_protocol`. On failure the registry is unchanged.
pub fn execute_operation(info: &mut ProtocolInfo, op: &GovOperation, target_protocol: &Vec<u8>) -> (r:
    Result<(), GovError>)
    requires
        old(info).wf(),
    ensures
        final(info).wf(),
        outcome_met(old(info)@, final(info)@, r, executed(old(info)@, op@, target_protocol@)),
{
    let id = vec_from_array(&op.protocol_id);
    if !vec_eq(&id, target_protocol) {
        return Err(GovError::TargetProtocolMismatch);
    }
    apply_action(info, &op.action)
}

/// Decodes an operation, holds it against the protocol it was sent to and
/// applies it to the registry. On failure the registry is unchanged.
pub fn handle_gov_operation(
    info: &mut ProtocolInfo,
    op_data: &OperationData,
    target_protocol: &Vec<u8>,
) -> (r: Result<(), GovError>)
    requires
        old(info).wf(),
    ensures
        final(info).wf(),
        outcome_met(old(info)@, final(info)@, r, handled(old(info)@, op_data@, target_protocol@)),
{
    match decode(op_data) {
        Err(e) => Err(e),
        Ok(op) => execute_operation(info, &op, target_protocol),
    }
}

/// A signature counts when the signer recovered from it is the keeper it is
/// said to come from, and that keeper is registered.
pub open spec fn signature_accepted(
    keepers: Seq<EthAddress>,
    claimed: EthAddress,
    recovered: Option<EthAddress>,
) -> bool {
    recovered == Some(claimed) && keepers.contains(claimed)
}

/// Every signature counts: there is a recovery outcome for each, and each is
/// accepted.
pub open spec fn all_accepted(
    keepers: Seq<EthAddress>,
    claimed: Seq<EthAddress>,
    recovered: Seq<Option<EthAddress>>,
) -> bool {
    &&& claimed.len() == recovered.len()
    &&& forall|i: int|
        0 <= i < claimed.len() ==> signature_accepted(keepers, #[trigger] claimed[i], recovered[i])
}

/// Whether the signers attest to an operation: `InvalidSignature` unless
/// every signature counts, `InsufficientQuorum` unless the distinct signers
/// reach the registry's consensus target rate.
pub open spec fn attested(
    info: ProtocolInfoView,
    claimed: Seq<EthAddress>,
    recovered: Seq<Option<EthAddress>>,
) -> Result<(), GovError> {
    if !all_accepted(info.keepers, claimed, recovered) {
        Err(GovError::InvalidSignature)
    } else if !quorum_reached(
        distinct_count(claimed),
        info.keepers.len(),
        info.consensus_target_rate,
    ) {
        Err(GovError::InsufficientQuorum)
    } else {
        Ok(())
    }
}

/// The registry after a signed operation sent to the protocol `target`:
/// the signatures are checked first, then the operation is decoded, held
/// against `target` and applied.
pub open spec fn apply_outcome(
    info: ProtocolInfoView,
    signed: SignedOperationView,
    recovered: Seq<Option<EthAddress>>,
    target: Seq<u8>,
) -> Result<ProtocolInfoView, GovError> {
    match attested(info, signers_of(signed.signatures), recovered) {
        Err(e) => Err(e),
        Ok(()) => handled(info, signed.operation_data, target),
    }
}

fn signature_counts(info: &ProtocolInfo, claimed: &EthAddress, recovered: &Option<EthAddress>) -> (r:
    bool)
    ensures
        r == signature_accepted(info@.keepers, *claimed, *recovered),
{
    match recovered {
        Some(signer) => array_eq(signer, claimed) && info.keepers.contains(claimed),
        None => false,
    }
}

/// Checks the signatures of an operation against the registry.
///
/// `recovered` holds, for each signature in order, the signer that signature
/// recovery gave for it over the operation's canonical encoding, or `None`
/// where recovery failed.
pub fn check_attestation(
    info: &ProtocolInfo,
    signatures: &Vec<KeeperSignature>,
    recovered: &Vec<Option<EthAddress>>,
) -> (r: Result<(), GovError>)
    ensures
        r == attested(info@, signers_of(signature_views(signatures@)), recovered@),
{
    let claimed = signers(signatures);
    if claimed.len() != recovered.len() {
        return Err(GovError::InvalidSignature);
    }
    let mut i: usize = 0;
    while i < claimed.len()
        invariant
            i <= claimed.len(),
            claimed.len() == recovered.len(),
            claimed@ == signers_of(signature_views(signatures@)),
            forall|j: int|
                0 <= j < i ==> signature_accepted(info@.keepers, #[trigger] claimed@[j], recovered@[j]),
        decreases claimed.len() - i,
    {
        if !signature_counts(info, &claimed[i], &recovered[i]) {
            assert(!signature_accepted(info@.keepers, claimed@[i as int], recovered@[i as int]));
            return Err(GovError::InvalidSignature);
        }
        i += 1;
    }
    let distinct = distinct_signers(&claimed);
    if has_quorum(distinct.len(), info.keepers.len(), info.consensus_target_rate) {
        Ok(())
    } else {
        Err(GovError::InsufficientQuorum)
    }
}

/// Applies a signed operation that was sent to the protocol
/// `target_protocol`: checks its signatures, decodes it, holds it against
/// the protocol and applies it. On failure the registry is unchanged.
///
/// `recovered` holds, for each signature in order, the signer that signature
/// recovery gave for it over the operation's canonical encoding, or `None`
/// where recovery failed.
pub fn apply(
    info: &mut ProtocolInfo,
    signed: &SignedOperation,
    recovered: &Vec<Option<EthAddress>>,
    target_protocol: &Vec<u8>,
) -> (r: Result<(), GovError>)
    requires
        old(info).wf(),
    ensures
        final(info).wf(),
        outcome_met(
            old(info)@,
            final(info)@,
            r,
            apply_outcome(old(info)@, signed@, recovered@, target_protocol@),
        ),
{
    match check_attestation(info, &signed.signatures, recovered) {
        Err(e) => Err(e),
        Ok(()) => handle_gov_operation(info, &signed.operation_data, target_protocol),
    }
}

/// How far an operation came on its way from arrival to the registry.
#[derive(Clone, Copy, Debug, PartialEq, Eq, Structural)]
pub enum Stage {
    /// The operation arrived; its signatures did not pass.
    Received,
    /// The signatures passed; the operation could not be decoded.
    SignatureVerified,
    /// The operation was decoded; it is meant for another protocol.
    Decoded,
    /// The protocol matched; the registry could not take the change.
    ProtocolValidated,
    /// The registry was changed.
    Applied,
}

/// The stage that an operation reached, told from how it ended.
pub open spec fn stage_of(r: Result<(), GovError>) -> Stage {
    match r {
        Ok(()) => Stage::Applied,
        Err(GovError::InvalidSignature) | Err(GovError::InsufficientQuorum) => Stage::Received,
        Err(GovError::UnsupportedOperation)
        | Err(GovError::InvalidProtoMsg)
        | Err(GovError::InvalidGovMsg) => Stage::SignatureVerified,
        Err(GovError::TargetProtocolMismatch) => Stage::Decoded,
        Err(GovError::CapacityExceeded) => Stage::ProtocolValidated,
    }
}

/// The stage that an operation reached, told from how it ended.
pub fn stage_reached(r: &Result<(), GovError>) -> (stage: Stage)
    ensures
        stage == stage_of(*r),
{
    match r {
        Ok(()) => Stage::Applied,
        Err(GovError::InvalidSignature) => Stage::Received,
        Err(GovError::InsufficientQuorum) => Stage::Received,
        Err(GovError::UnsupportedOperation) => Stage::SignatureVerified,
        Err(GovError::InvalidProtoMsg) => Stage::SignatureVerified,
        Err(GovError::InvalidGovMsg) => Stage::SignatureVerified,
        Err(GovError::TargetProtocolMismatch) => Stage::Decoded,
        Err(GovError::CapacityExceeded) => Stage::ProtocolValidated,
    }
}

/// The result of a signed operation, without the registry it leaves.
pub open spec fn apply_result(
    info: ProtocolInfoView,
    signed: SignedOperationView,
    recovered: Seq<Option<EthAddress>>,
    target: Seq<u8>,
) -> Result<(), GovError> {
    match apply_outcome(info, signed, recovered, target) {
        Ok(_) => Ok(()),
        Err(e) => Err(e),
    }
}

/// The way a signed operation ends tells the step at which it stopped: its
/// signatures, its decoding, its protocol, or the change itself; and it is
/// applied exactly when every step passed.
pub proof fn lemma_stages(
    info: ProtocolInfoView,
    signed: SignedOperationView,
    recovered: Seq<Option<EthAddress>>,
    target: Seq<u8>,
)
    ensures
        ({
            let stage = stage_of(apply_result(info, signed, recovered, target));
            let attestation = attested(info, signers_of(signed.signatures), recovered);
            let decoded = decoded_operation(signed.operation_data);
            &&& stage == Stage::Received <==> attestation is Err
            &&& stage == Stage::SignatureVerified <==> attestation is Ok && decoded is Err
            &&& stage == Stage::Decoded <==> attestation is Ok && decoded is Ok
                && decoded->Ok_0.protocol_id@ != target
            &&& stage == Stage::ProtocolValidated <==> attestation is Ok && decoded is Ok
                && decoded->Ok_0.protocol_id@ == target && applied(info, decoded->Ok_0.action) is Err
            &&& stage == Stage::Applied <==> attestation is Ok && decoded is Ok
                && decoded->Ok_0.protocol_id@ == target && applied(info, decoded->Ok_0.action) is Ok
        }),
{
    lemma_decoding_errors(signed.operation_data);
}

/// Every action that is applied leaves a registry whose sets are within
/// their capacity and free of repeats, and leaves the capacities as they
/// were.
pub proof fn lemma_applied_wf(info: ProtocolInfoView, action: GovActionView)
    requires
        info.wf(),
    ensures
        applied(info, action) matches Ok(next) ==> next.wf() && next.keeper_capacity
            == info.keeper_capacity && next.executor_capacity == info.executor_capacity,
{
    match action {
        GovActionView::AddAllowedProtocol { keepers, .. } => {
            lemma_union_unique(Seq::<EthAddress>::empty(), keepers);
        },
        GovActionView::AddExecutor { executor } => {
            lemma_filter_no_duplicates(info.executors, is_not(executor));
            lemma_without_idempotent(info.executors, executor);
            lemma_insert_unique(without(info.executors, executor), executor);
        },
        GovActionView::RemoveExecutor { executor } => {
            lemma_filter_no_duplicates(info.executors, is_not(executor));
            info.executors.lemma_filter_len(is_not(executor));
        },
        GovActionView::AddKeeper { keepers } => {
            lemma_union_unique(info.keepers, keepers);
        },
        GovActionView::RemoveKeeper { keepers } => {
            lemma_filter_no_duplicates(info.keepers, not_in(keepers));
            info.keepers.lemma_filter_len(not_in(keepers));
        },
        _ => {},
    }
}

/// Applying an action again to the registry it produced changes nothing: an
/// operation that is delivered twice has the effect of one delivery.
pub proof fn lemma_applied_idempotent(info: ProtocolInfoView, action: GovActionView)
    requires
        info.wf(),
        applied(info, action) is Ok,
    ensures
        applied(applied(info, action)->Ok_0, action) == applied(info, action),
{
    match action {
        GovActionView::AddExecutor { executor } => {
            lemma_moved_to_end_idempotent(info.executors, executor);
        },
        GovActionView::RemoveExecutor { executor } => {
            lemma_without_idempotent(info.executors, executor);
        },
        GovActionView::AddKeeper { keepers } => {
            lemma_union_unique_idempotent(info.keepers, keepers);
        },
        GovActionView::RemoveKeeper { keepers } => {
            lemma_difference_idempotent(info.keepers, keepers);
        },
        _ => {},
    }
}

/// Adding a keeper that is registered already, and removing a keeper or an
/// executor that is absent, leave the registry as it was.
pub proof fn lemma_membership_no_op(info: ProtocolInfoView, keeper: EthAddress, executor: [u8; 32])
    requires
        info.wf(),
    ensures
        info.keepers.contains(keeper) ==> applied(
            info,
            GovActionView::AddKeeper { keepers: seq![keeper] },
        ) == Ok::<ProtocolInfoView, GovError>(info),
        !info.keepers.contains(keeper) ==> applied(
            info,
            GovActionView::RemoveKeeper { keepers: seq![keeper] },
        ) == Ok::<ProtocolInfoView, GovError>(info),
        !info.executors.contains(executor) ==> applied(
            info,
            GovActionView::RemoveExecutor { executor },
        ) == Ok::<ProtocolInfoView, GovError>(info),
{
    let one = seq![keeper];
    assert(one.drop_last() =~= Seq::<EthAddress>::empty());
    assert(one.last() == keeper);
    assert(union_unique(info.keepers, one.drop_last()) == info.keepers);
    if !info.keepers.contains(keeper) {
        assert forall|i: int| 0 <= i < info.keepers.len() implies !one.contains(
            #[trigger] info.keepers[i],
        ) by {
            if one.contains(info.keepers[i]) {
                assert(info.keepers.contains(info.keepers[i]));
            }
        }
        lemma_difference_disjoint(info.keepers, one);
    }
    if !info.executors.contains(executor) {
        lemma_without_absent(info.executors, executor);
    }
}

/// An operation meant for another protocol is rejected on every path,
/// whatever it would do: by itself, as calldata, and as a signed operation.
pub proof fn lemma_protocol_isolation(
    info: ProtocolInfoView,
    op: GovOperationView,
    signed: SignedOperationView,
    recovered: Seq<Option<EthAddress>>,
    target: Seq<u8>,
)
    requires
        op.protocol_id@ != target,
    ensures
        executed(info, op, target) == Err::<ProtocolInfoView, GovError>(
            GovError::TargetProtocolMismatch,
        ),
        decoded_operation(signed.operation_data) == Ok::<GovOperationView, GovError>(op) ==> handled(
            info,
            signed.operation_data,
            target,
        ) == Err::<ProtocolInfoView, GovError>(GovError::TargetProtocolMismatch),
        decoded_operation(signed.operation_data) == Ok::<GovOperationView, GovError>(op)
            ==> apply_outcome(info, signed, recovered, target) is Err,
{
}

/// A full keeper set takes no keeper that is new, and a full executor set no
/// executor that is new.
pub proof fn lemma_capacity_bound(
    info: ProtocolInfoView,
    keepers: Seq<EthAddress>,
    keeper: EthAddress,
    executor: [u8; 32],
)
    requires
        info.wf(),
    ensures
        info.keepers.len() == info.keeper_capacity && keepers.contains(keeper)
            && !info.keepers.contains(keeper) ==> applied(
            info,
            GovActionView::AddKeeper { keepers },
        ) == Err::<ProtocolInfoView, GovError>(GovError::CapacityExceeded),
        info.executors.len() == info.executor_capacity && !info.executors.contains(executor)
            ==> applied(info, GovActionView::AddExecutor { executor }) == Err::<
            ProtocolInfoView,
            GovError,
        >(GovError::CapacityExceeded),
{
    if keepers.contains(keeper) && !info.keepers.contains(keeper) {
        lemma_union_unique_exceeds(info.keepers, keepers, keeper);
    }
    if !info.executors.contains(executor) {
        lemma_without_absent(info.executors, executor);
    }
}

} // verus!
