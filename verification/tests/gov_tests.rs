use ethabi::Token;
use gov_relay::codec::OperationData;
use gov_relay::codec::{ADD_EXECUTOR, ADD_KEEPER, REMOVE_EXECUTOR};
use gov_relay::error::GovError;
use gov_relay::gov::{apply, handle_gov_operation};
use gov_relay::registry::ProtocolInfo;
use gov_relay::signed::{KeeperSignature, SignedOperation};

const P: [u8; 32] = [7u8; 32];

fn keeper(tag: u8) -> [u8; 20] {
    [tag; 20]
}

fn operation(selector: u32, tokens: &[Token]) -> OperationData {
    OperationData { function_selector: selector.to_be_bytes(), params: ethabi::encode(tokens) }
}

fn add_keeper_op(id: [u8; 32], keepers: &[[u8; 20]]) -> OperationData {
    let list = keepers.iter().map(|k| Token::Address((*k).into())).collect();
    operation(ADD_KEEPER, &[Token::FixedBytes(id.to_vec()), Token::Array(list)])
}

fn registry_abc() -> ProtocolInfo {
    let mut info = ProtocolInfo::new(10, 10);
    info.consensus_target_rate = 6000;
    for tag in [0xA, 0xB, 0xC] {
        info.keepers.add_unique(keeper(tag)).unwrap();
    }
    info
}

fn signed_by(data: OperationData, tags: &[u8]) -> (SignedOperation, Vec<Option<[u8; 20]>>) {
    let signatures = tags.iter().map(|t| KeeperSignature { signer: keeper(*t), signature: vec![*t; 65] }).collect();
    let recovered = tags.iter().map(|t| Some(keeper(*t))).collect();
    (SignedOperation { operation_data: data, signatures }, recovered)
}

#[test]
fn add_keeper_with_two_of_three_signers_is_applied() {
    let mut info = registry_abc();
    let (signed, recovered) = signed_by(add_keeper_op(P, &[keeper(0xD), keeper(0xE)]), &[0xB, 0xC]);
    assert_eq!(apply(&mut info, &signed, &recovered, &P.to_vec()), Ok(()));
    assert_eq!(info.keepers(), vec![keeper(0xA), keeper(0xB), keeper(0xC), keeper(0xD), keeper(0xE)]);
}

#[test]
fn add_keeper_with_one_of_three_signers_is_rejected() {
    let mut info = registry_abc();
    let (signed, recovered) = signed_by(add_keeper_op(P, &[keeper(0xD), keeper(0xE)]), &[0xB]);
    assert_eq!(apply(&mut info, &signed, &recovered, &P.to_vec()), Err(GovError::InsufficientQuorum));
    assert_eq!(info.keepers(), vec![keeper(0xA), keeper(0xB), keeper(0xC)]);
}

#[test]
fn remove_executor_of_an_absent_address_changes_nothing() {
    let mut info = ProtocolInfo::new(10, 10);
    let add = operation(ADD_EXECUTOR, &[Token::FixedBytes(P.to_vec()), Token::Bytes(vec![1u8; 32])]);
    assert_eq!(handle_gov_operation(&mut info, &add, &P.to_vec()), Ok(()));
    let remove = operation(REMOVE_EXECUTOR, &[Token::FixedBytes(P.to_vec()), Token::Bytes(vec![2u8; 32])]);
    assert_eq!(handle_gov_operation(&mut info, &remove, &P.to_vec()), Ok(()));
    assert_eq!(info.executors(), vec![[1u8; 32]]);
}

use gov_relay::codec::{
    GovAction, GovOperation, ADD_ALLOWED_PROPOSER_ADDRESS, ADD_ALLOWED_PROTOCOL, ADD_ALLOWED_PROTOCOL_ADDRESS,
    REMOVE_ALLOWED_PROPOSER_ADDRESS, REMOVE_ALLOWED_PROTOCOL_ADDRESS, REMOVE_KEEPER, SET_CONSENSUS_TARGET_RATE,
    SET_PROTOCOL_FEE,
};
use gov_relay::encoder::encode;
use gov_relay::gov::{apply_action, check_attestation, execute_operation, stage_reached, Stage};

fn id_token(id: [u8; 32]) -> Token {
    Token::FixedBytes(id.to_vec())
}

fn every_action() -> Vec<GovAction> {
    vec![
        GovAction::AddAllowedProtocol { consensus_target_rate: 1, protocol_fee: 2, keepers: vec![keeper(1)] },
        GovAction::AddAllowedProtocolAddress { protocol_address: [3; 32] },
        GovAction::RemoveAllowedProtocolAddress { raw_address: vec![3; 32] },
        GovAction::AddAllowedProposerAddress { proposer_address: vec![4; 32] },
        GovAction::RemoveAllowedProposerAddress { proposer_address: vec![4; 32] },
        GovAction::AddExecutor { executor: [5; 32] },
        GovAction::RemoveExecutor { executor: [5; 32] },
        GovAction::AddKeeper { keepers: vec![keeper(6)] },
        GovAction::RemoveKeeper { keepers: vec![keeper(0xA)] },
        GovAction::SetConsensusTargetRate { consensus_target_rate: 7 },
        GovAction::SetProtocolFee { protocol_fee: 8 },
    ]
}

#[test]
fn operation_for_another_protocol_is_rejected_for_every_selector() {
    let other = [8u8; 32];
    for action in every_action() {
        let mut info = registry_abc();
        let before = info.clone();
        let op = GovOperation { protocol_id: other, action };
        assert_eq!(execute_operation(&mut info, &op, &P.to_vec()), Err(GovError::TargetProtocolMismatch));
        assert_eq!(info, before);
        assert_eq!(handle_gov_operation(&mut info, &encode(&op), &P.to_vec()), Err(GovError::TargetProtocolMismatch));
        assert_eq!(info, before);
        let (signed, recovered) = signed_by(encode(&op), &[0xA, 0xB, 0xC]);
        assert_eq!(apply(&mut info, &signed, &recovered, &P.to_vec()), Err(GovError::TargetProtocolMismatch));
        assert_eq!(info, before);
    }
}

#[test]
fn target_of_another_length_never_matches() {
    let mut info = registry_abc();
    let op = GovOperation { protocol_id: P, action: GovAction::SetProtocolFee { protocol_fee: 8 } };
    assert_eq!(execute_operation(&mut info, &op, &P[..31].to_vec()), Err(GovError::TargetProtocolMismatch));
    assert_eq!(execute_operation(&mut info, &op, &Vec::new()), Err(GovError::TargetProtocolMismatch));
    assert_eq!(info.protocol_fee, 0);
}

#[test]
fn add_allowed_protocol_initialises_the_registry() {
    let mut info = ProtocolInfo::new(3, 3);
    let list = vec![Token::Address(keeper(1).into()), Token::Address(keeper(2).into()), Token::Address(keeper(1).into())];
    let data = operation(
        ADD_ALLOWED_PROTOCOL,
        &[id_token(P), Token::Uint(6000u64.into()), Token::Uint(30u64.into()), Token::Array(list)],
    );
    assert_eq!(handle_gov_operation(&mut info, &data, &P.to_vec()), Ok(()));
    assert!(info.is_init);
    assert_eq!(info.consensus_target_rate, 6000);
    assert_eq!(info.protocol_fee, 30);
    assert_eq!(info.keepers(), vec![keeper(1), keeper(2)]);
}

#[test]
fn add_allowed_protocol_replaces_the_keepers() {
    let mut info = registry_abc();
    let action = GovAction::AddAllowedProtocol { consensus_target_rate: 5, protocol_fee: 6, keepers: vec![keeper(9)] };
    assert_eq!(apply_action(&mut info, &action), Ok(()));
    assert_eq!(info.keepers(), vec![keeper(9)]);
}

#[test]
fn add_allowed_protocol_with_too_many_keepers_changes_nothing() {
    let mut info = ProtocolInfo::new(1, 1);
    let action =
        GovAction::AddAllowedProtocol { consensus_target_rate: 5, protocol_fee: 6, keepers: vec![keeper(1), keeper(2)] };
    assert_eq!(apply_action(&mut info, &action), Err(GovError::CapacityExceeded));
    assert_eq!(info, ProtocolInfo::new(1, 1));
}

#[test]
fn protocol_address_is_set_and_cleared() {
    let mut info = ProtocolInfo::new(3, 3);
    let set = operation(ADD_ALLOWED_PROTOCOL_ADDRESS, &[id_token(P), Token::Bytes(vec![0x42; 32])]);
    assert_eq!(handle_gov_operation(&mut info, &set, &P.to_vec()), Ok(()));
    assert_eq!(info.protocol_address, [0x42; 32]);
    let clear = operation(REMOVE_ALLOWED_PROTOCOL_ADDRESS, &[id_token(P), Token::Bytes(vec![0x42; 32])]);
    assert_eq!(handle_gov_operation(&mut info, &clear, &P.to_vec()), Ok(()));
    assert_eq!(info.protocol_address, [0u8; 32]);
}

#[test]
fn proposer_operations_succeed_without_effect() {
    let mut info = registry_abc();
    let before = info.clone();
    for selector in [ADD_ALLOWED_PROPOSER_ADDRESS, REMOVE_ALLOWED_PROPOSER_ADDRESS] {
        let data = operation(selector, &[id_token(P), Token::Bytes(vec![1; 20])]);
        assert_eq!(handle_gov_operation(&mut info, &data, &P.to_vec()), Ok(()));
        assert_eq!(info, before);
    }
}

#[test]
fn add_executor_moves_a_known_executor_to_the_end() {
    let mut info = ProtocolInfo::new(3, 3);
    for tag in [1u8, 2, 3, 1] {
        let data = operation(ADD_EXECUTOR, &[id_token(P), Token::Bytes(vec![tag; 32])]);
        assert_eq!(handle_gov_operation(&mut info, &data, &P.to_vec()), Ok(()));
    }
    assert_eq!(info.executors(), vec![[2u8; 32], [3u8; 32], [1u8; 32]]);
    let data = operation(ADD_EXECUTOR, &[id_token(P), Token::Bytes(vec![4; 32])]);
    assert_eq!(handle_gov_operation(&mut info, &data, &P.to_vec()), Err(GovError::CapacityExceeded));
    assert_eq!(info.executors(), vec![[2u8; 32], [3u8; 32], [1u8; 32]]);
}

#[test]
fn add_keeper_keeps_the_first_of_each_address() {
    let mut info = registry_abc();
    let data = add_keeper_op(P, &[keeper(0xD), keeper(0xB), keeper(0xE), keeper(0xD)]);
    assert_eq!(handle_gov_operation(&mut info, &data, &P.to_vec()), Ok(()));
    assert_eq!(info.keepers(), vec![keeper(0xA), keeper(0xB), keeper(0xC), keeper(0xD), keeper(0xE)]);
}

#[test]
fn add_keeper_twice_is_add_keeper_once() {
    let mut info = registry_abc();
    let data = add_keeper_op(P, &[keeper(0xD)]);
    assert_eq!(handle_gov_operation(&mut info, &data, &P.to_vec()), Ok(()));
    let once = info.clone();
    assert_eq!(handle_gov_operation(&mut info, &data, &P.to_vec()), Ok(()));
    assert_eq!(info, once);
}

#[test]
fn add_keeper_beyond_capacity_changes_nothing() {
    let mut info = ProtocolInfo::new(4, 4);
    for tag in [1, 2, 3] {
        info.keepers.add_unique(keeper(tag)).unwrap();
    }
    let data = add_keeper_op(P, &[keeper(4), keeper(5)]);
    assert_eq!(handle_gov_operation(&mut info, &data, &P.to_vec()), Err(GovError::CapacityExceeded));
    assert_eq!(info.keepers(), vec![keeper(1), keeper(2), keeper(3)]);
    let data = add_keeper_op(P, &[keeper(4), keeper(1)]);
    assert_eq!(handle_gov_operation(&mut info, &data, &P.to_vec()), Ok(()));
    assert_eq!(info.keepers(), vec![keeper(1), keeper(2), keeper(3), keeper(4)]);
}

#[test]
fn remove_keeper_removes_those_named() {
    let mut info = registry_abc();
    let list = vec![Token::Address(keeper(0xC).into()), Token::Address(keeper(0xF).into()), Token::Address(keeper(0xA).into())];
    let data = operation(REMOVE_KEEPER, &[id_token(P), Token::Array(list)]);
    assert_eq!(handle_gov_operation(&mut info, &data, &P.to_vec()), Ok(()));
    assert_eq!(info.keepers(), vec![keeper(0xB)]);
}

#[test]
fn rate_and_fee_are_overwritten() {
    let mut info = registry_abc();
    let data = operation(SET_CONSENSUS_TARGET_RATE, &[id_token(P), Token::Uint(7500u64.into())]);
    assert_eq!(handle_gov_operation(&mut info, &data, &P.to_vec()), Ok(()));
    assert_eq!(info.consensus_target_rate, 7500);
    let data = operation(SET_PROTOCOL_FEE, &[id_token(P), Token::Uint(99u64.into())]);
    assert_eq!(handle_gov_operation(&mut info, &data, &P.to_vec()), Ok(()));
    assert_eq!(info.protocol_fee, 99);
    assert_eq!(info.keepers(), vec![keeper(0xA), keeper(0xB), keeper(0xC)]);
}

#[test]
fn failed_decoding_changes_nothing() {
    let mut info = registry_abc();
    let before = info.clone();
    let unknown = operation(0x01020304, &[id_token(P)]);
    assert_eq!(handle_gov_operation(&mut info, &unknown, &P.to_vec()), Err(GovError::UnsupportedOperation));
    let malformed = OperationData { function_selector: ADD_KEEPER.to_be_bytes(), params: vec![1, 2, 3] };
    assert_eq!(handle_gov_operation(&mut info, &malformed, &P.to_vec()), Err(GovError::InvalidProtoMsg));
    let short = operation(ADD_EXECUTOR, &[id_token(P), Token::Bytes(vec![1; 31])]);
    assert_eq!(handle_gov_operation(&mut info, &short, &P.to_vec()), Err(GovError::InvalidGovMsg));
    assert_eq!(info, before);
}

#[test]
fn a_field_that_cannot_be_read_is_reported_before_the_protocol_is_compared() {
    let mut info = registry_abc();
    let other = [8u8; 32];
    let short = operation(ADD_EXECUTOR, &[id_token(other), Token::Bytes(vec![1; 31])]);
    assert_eq!(handle_gov_operation(&mut info, &short, &P.to_vec()), Err(GovError::InvalidGovMsg));
}

#[test]
fn signature_of_an_unregistered_signer_is_invalid() {
    let mut info = registry_abc();
    let (signed, recovered) = signed_by(add_keeper_op(P, &[keeper(0xD)]), &[0xB, 0xC, 0xF]);
    assert_eq!(apply(&mut info, &signed, &recovered, &P.to_vec()), Err(GovError::InvalidSignature));
    assert_eq!(info.keepers(), vec![keeper(0xA), keeper(0xB), keeper(0xC)]);
}

#[test]
fn signature_that_recovers_to_another_signer_is_invalid() {
    let info = registry_abc();
    let (signed, _) = signed_by(add_keeper_op(P, &[keeper(0xD)]), &[0xB, 0xC]);
    assert_eq!(
        check_attestation(&info, &signed.signatures, &vec![Some(keeper(0xB)), Some(keeper(0xA))]),
        Err(GovError::InvalidSignature)
    );
    assert_eq!(
        check_attestation(&info, &signed.signatures, &vec![Some(keeper(0xB)), None]),
        Err(GovError::InvalidSignature)
    );
    assert_eq!(check_attestation(&info, &signed.signatures, &vec![Some(keeper(0xB))]), Err(GovError::InvalidSignature));
    assert_eq!(
        check_attestation(&info, &signed.signatures, &vec![Some(keeper(0xB)), Some(keeper(0xC))]),
        Ok(())
    );
}

#[test]
fn repeated_signers_count_once() {
    let mut info = registry_abc();
    let (signed, recovered) = signed_by(add_keeper_op(P, &[keeper(0xD)]), &[0xB, 0xB, 0xB]);
    assert_eq!(apply(&mut info, &signed, &recovered, &P.to_vec()), Err(GovError::InsufficientQuorum));
    assert_eq!(info.keepers(), vec![keeper(0xA), keeper(0xB), keeper(0xC)]);
}

#[test]
fn quorum_is_checked_before_decoding() {
    let mut info = registry_abc();
    let unknown = operation(0x01020304, &[id_token(P)]);
    let (signed, recovered) = signed_by(unknown.clone(), &[0xB]);
    assert_eq!(apply(&mut info, &signed, &recovered, &P.to_vec()), Err(GovError::InsufficientQuorum));
    let (signed, recovered) = signed_by(unknown, &[0xA, 0xB]);
    assert_eq!(apply(&mut info, &signed, &recovered, &P.to_vec()), Err(GovError::UnsupportedOperation));
}

#[test]
fn empty_registry_takes_its_first_operation_unsigned() {
    let mut info = ProtocolInfo::new(3, 3);
    let op = GovOperation {
        protocol_id: P,
        action: GovAction::AddAllowedProtocol { consensus_target_rate: 6000, protocol_fee: 1, keepers: vec![keeper(1)] },
    };
    let (signed, recovered) = signed_by(encode(&op), &[]);
    assert_eq!(apply(&mut info, &signed, &recovered, &P.to_vec()), Ok(()));
    assert_eq!(info.keepers(), vec![keeper(1)]);
    let (again, recovered) = signed_by(encode(&op), &[]);
    assert_eq!(apply(&mut info, &again, &recovered, &P.to_vec()), Err(GovError::InsufficientQuorum));
}

#[test]
fn applying_a_signed_operation_twice_is_safe() {
    let mut info = registry_abc();
    let (signed, recovered) = signed_by(add_keeper_op(P, &[keeper(0xD), keeper(0xE)]), &[0xA, 0xB, 0xC]);
    assert_eq!(apply(&mut info, &signed, &recovered, &P.to_vec()), Ok(()));
    let once = info.clone();
    assert_eq!(apply(&mut info, &signed, &recovered, &P.to_vec()), Ok(()));
    assert_eq!(info, once);
}

#[test]
fn the_error_tells_the_stage_that_was_reached() {
    let mut info = registry_abc();
    let other = [8u8; 32];
    let (signed, recovered) = signed_by(add_keeper_op(P, &[keeper(0xD)]), &[0xB]);
    assert_eq!(stage_reached(&apply(&mut info, &signed, &recovered, &P.to_vec())), Stage::Received);
    let (signed, recovered) = signed_by(operation(0x01020304, &[id_token(P)]), &[0xA, 0xB]);
    assert_eq!(stage_reached(&apply(&mut info, &signed, &recovered, &P.to_vec())), Stage::SignatureVerified);
    let (signed, recovered) = signed_by(add_keeper_op(other, &[keeper(0xD)]), &[0xA, 0xB]);
    assert_eq!(stage_reached(&apply(&mut info, &signed, &recovered, &P.to_vec())), Stage::Decoded);
    let many: Vec<[u8; 20]> = (1u8..=8).map(keeper).collect();
    let (signed, recovered) = signed_by(add_keeper_op(P, &many), &[0xA, 0xB]);
    assert_eq!(stage_reached(&apply(&mut info, &signed, &recovered, &P.to_vec())), Stage::ProtocolValidated);
    let (signed, recovered) = signed_by(add_keeper_op(P, &[keeper(0xD)]), &[0xA, 0xB]);
    assert_eq!(stage_reached(&apply(&mut info, &signed, &recovered, &P.to_vec())), Stage::Applied);
    assert_eq!(stage_reached(&Err(GovError::InvalidSignature)), Stage::Received);
    assert_eq!(stage_reached(&Err(GovError::InvalidProtoMsg)), Stage::SignatureVerified);
    assert_eq!(stage_reached(&Err(GovError::InvalidGovMsg)), Stage::SignatureVerified);
}
