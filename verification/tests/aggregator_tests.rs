use gov_relay::aggregator::{AggregationState, Aggregator};
use gov_relay::codec::OperationData;
use gov_relay::signed::{KeeperSignature, SignedOperation};

const FP: [u8; 32] = [0xf1; 32];
const FP2: [u8; 32] = [0xf2; 32];

fn keeper(tag: u8) -> [u8; 20] {
    [tag; 20]
}

fn op_data(tag: u8) -> OperationData {
    OperationData { function_selector: [tag; 4], params: vec![tag; 8] }
}

fn sig(tag: u8) -> KeeperSignature {
    KeeperSignature { signer: keeper(tag), signature: vec![tag; 65] }
}

#[test]
fn signatures_of_an_untracked_operation_are_buffered() {
    let mut agg = Aggregator::new(100);
    assert_eq!(agg.add_signature(FP, keeper(1), vec![1; 65], 0, 3, 6000), AggregationState::Buffered { signers: 1 });
    assert_eq!(agg.add_signature(FP, keeper(2), vec![2; 65], 1, 3, 6000), AggregationState::Buffered { signers: 2 });
    assert_eq!(agg.add_signature(FP, keeper(3), vec![3; 65], 2, 3, 6000), AggregationState::Buffered { signers: 3 });
    assert_eq!(agg.len(), 1);
    assert_eq!(agg.signer_count(&FP), Some(3));
    assert_eq!(agg.signer_count(&FP2), None);
}

#[test]
fn tracked_operation_collects_until_quorum() {
    let mut agg = Aggregator::new(100);
    assert_eq!(agg.track(FP, op_data(7), 0, 3, 6000), AggregationState::Collecting { signers: 0 });
    assert_eq!(agg.add_signature(FP, keeper(1), vec![1; 65], 1, 3, 6000), AggregationState::Collecting { signers: 1 });
    assert_eq!(
        agg.add_signature(FP, keeper(2), vec![2; 65], 2, 3, 6000),
        AggregationState::Complete(SignedOperation { operation_data: op_data(7), signatures: vec![sig(1), sig(2)] })
    );
    assert_eq!(agg.len(), 0);
}

#[test]
fn second_signature_of_a_signer_does_not_count() {
    let mut agg = Aggregator::new(100);
    agg.track(FP, op_data(7), 0, 3, 6000);
    assert_eq!(agg.add_signature(FP, keeper(1), vec![1; 65], 1, 3, 6000), AggregationState::Collecting { signers: 1 });
    assert_eq!(agg.add_signature(FP, keeper(1), vec![9; 65], 2, 3, 6000), AggregationState::Collecting { signers: 1 });
    assert_eq!(
        agg.add_signature(FP, keeper(2), vec![2; 65], 3, 3, 6000),
        AggregationState::Complete(SignedOperation { operation_data: op_data(7), signatures: vec![sig(1), sig(2)] })
    );
}

#[test]
fn tracking_a_buffered_operation_hands_out_the_bundle() {
    let mut agg = Aggregator::new(100);
    agg.add_signature(FP, keeper(1), vec![1; 65], 0, 3, 6000);
    agg.add_signature(FP, keeper(2), vec![2; 65], 0, 3, 6000);
    assert_eq!(
        agg.track(FP, op_data(7), 5, 3, 6000),
        AggregationState::Complete(SignedOperation { operation_data: op_data(7), signatures: vec![sig(1), sig(2)] })
    );
    assert_eq!(agg.signer_count(&FP), None);
}

#[test]
fn tracked_operation_keeps_the_operation_it_has() {
    let mut agg = Aggregator::new(100);
    agg.track(FP, op_data(7), 0, 3, 6000);
    assert_eq!(agg.track(FP, op_data(8), 1, 3, 6000), AggregationState::Collecting { signers: 0 });
    agg.add_signature(FP, keeper(1), vec![1; 65], 2, 3, 6000);
    assert_eq!(
        agg.add_signature(FP, keeper(2), vec![2; 65], 3, 3, 6000),
        AggregationState::Complete(SignedOperation { operation_data: op_data(7), signatures: vec![sig(1), sig(2)] })
    );
}

#[test]
fn bundle_is_handed_out_once() {
    let mut agg = Aggregator::new(100);
    agg.track(FP, op_data(7), 0, 2, 5000);
    assert_eq!(
        agg.add_signature(FP, keeper(1), vec![1; 65], 1, 2, 5000),
        AggregationState::Complete(SignedOperation { operation_data: op_data(7), signatures: vec![sig(1)] })
    );
    assert_eq!(agg.add_signature(FP, keeper(2), vec![2; 65], 2, 2, 5000), AggregationState::Buffered { signers: 1 });
    assert_eq!(agg.signer_count(&FP), Some(1));
}

#[test]
fn entries_are_dropped_when_their_time_has_run_out() {
    let mut agg = Aggregator::new(10);
    agg.track(FP, op_data(7), 100, 3, 6000);
    agg.add_signature(FP, keeper(1), vec![1; 65], 105, 3, 6000);
    agg.add_signature(FP2, keeper(1), vec![1; 65], 108, 3, 6000);
    assert_eq!(agg.len(), 2);
    agg.expire(109);
    assert_eq!(agg.len(), 2);
    agg.expire(110);
    assert_eq!(agg.len(), 1);
    assert_eq!(agg.signer_count(&FP), None);
    assert_eq!(agg.signer_count(&FP2), Some(1));
    assert_eq!(agg.add_signature(FP, keeper(2), vec![2; 65], 117, 3, 6000), AggregationState::Buffered { signers: 1 });
    assert_eq!(agg.len(), 2);
    agg.expire(118);
    assert_eq!(agg.len(), 1);
    assert_eq!(agg.signer_count(&FP), Some(1));
}

#[test]
fn late_signature_starts_over() {
    let mut agg = Aggregator::new(10);
    agg.track(FP, op_data(7), 0, 3, 6000);
    agg.add_signature(FP, keeper(1), vec![1; 65], 1, 3, 6000);
    assert_eq!(agg.add_signature(FP, keeper(2), vec![2; 65], 10, 3, 6000), AggregationState::Buffered { signers: 1 });
}

#[test]
fn retention_does_not_overflow() {
    let mut agg = Aggregator::new(u64::MAX);
    agg.track(FP, op_data(7), 5, 3, 6000);
    agg.expire(u64::MAX - 1);
    assert_eq!(agg.len(), 1);
    agg.expire(u64::MAX);
    assert_eq!(agg.len(), 0);
    let mut none = Aggregator::new(0);
    assert_eq!(none.track(FP, op_data(7), 5, 3, 6000), AggregationState::Collecting { signers: 0 });
    assert_eq!(none.add_signature(FP, keeper(1), vec![1; 65], 5, 3, 6000), AggregationState::Buffered { signers: 1 });
    assert_eq!(none.len(), 1);
}

#[test]
fn operations_are_kept_apart_by_fingerprint() {
    let mut agg = Aggregator::new(100);
    agg.track(FP, op_data(1), 0, 2, 10_000);
    agg.track(FP2, op_data(2), 0, 2, 10_000);
    agg.add_signature(FP, keeper(1), vec![1; 65], 1, 2, 10_000);
    agg.add_signature(FP2, keeper(1), vec![1; 65], 1, 2, 10_000);
    assert_eq!(
        agg.add_signature(FP2, keeper(2), vec![2; 65], 2, 2, 10_000),
        AggregationState::Complete(SignedOperation { operation_data: op_data(2), signatures: vec![sig(1), sig(2)] })
    );
    assert_eq!(agg.signer_count(&FP), Some(1));
    assert_eq!(agg.len(), 1);
}

#[test]
fn zero_rate_completes_on_tracking() {
    let mut agg = Aggregator::new(100);
    assert_eq!(
        agg.track(FP, op_data(7), 0, 3, 0),
        AggregationState::Complete(SignedOperation { operation_data: op_data(7), signatures: Vec::new() })
    );
    assert_eq!(agg.len(), 0);
}
