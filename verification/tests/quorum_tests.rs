use gov_relay::quorum::{distinct_signers, has_quorum, RATE_SCALE};

#[test]
fn rate_scale_is_basis_points() {
    assert_eq!(RATE_SCALE, 10_000);
}

#[test]
fn two_of_three_meet_sixty_percent() {
    assert!(has_quorum(2, 3, 6000));
    assert!(!has_quorum(1, 3, 6000));
    assert!(has_quorum(3, 3, 6000));
}

#[test]
fn quorum_is_reached_from_the_rounded_up_share_on() {
    for keepers in 1usize..=32 {
        for rate in [0u64, 1, 3333, 5000, 5001, 6000, 6667, 9999, 10_000] {
            let need = ((rate as u128 * keepers as u128 + 9999) / 10_000) as usize;
            for signers in 0..=keepers {
                assert_eq!(has_quorum(signers, keepers, rate), signers >= need);
            }
        }
    }
}

#[test]
fn zero_rate_needs_nobody_and_full_rate_everybody() {
    assert!(has_quorum(0, 5, 0));
    assert!(!has_quorum(4, 5, 10_000));
    assert!(has_quorum(5, 5, 10_000));
    assert!(!has_quorum(5, 5, 10_001));
    assert!(has_quorum(0, 0, 10_000));
}

#[test]
fn quorum_does_not_overflow_on_the_largest_values() {
    assert!(!has_quorum(usize::MAX, usize::MAX, u64::MAX));
    assert!(has_quorum(usize::MAX, usize::MAX, 10_000));
    assert!(has_quorum(0, usize::MAX, 0));
}

#[test]
fn distinct_signers_keeps_the_first_of_each() {
    let a = [1u8; 20];
    let b = [2u8; 20];
    let c = [3u8; 20];
    assert_eq!(distinct_signers(&vec![a, b, a, c, b, a]), vec![a, b, c]);
    assert_eq!(distinct_signers(&Vec::new()), Vec::<[u8; 20]>::new());
}
