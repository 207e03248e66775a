use gov_relay::error::GovError;
use gov_relay::registry::{vec_contains, BoundedSet, ProtocolInfo};

fn addr(tag: u8) -> [u8; 20] {
    [tag; 20]
}

fn set_of(capacity: usize, tags: &[u8]) -> BoundedSet<20> {
    let mut set = BoundedSet::new(capacity);
    for tag in tags {
        set.add_unique(addr(*tag)).unwrap();
    }
    set
}

#[test]
fn new_set_is_empty() {
    let set: BoundedSet<20> = BoundedSet::new(4);
    assert_eq!(set.len(), 0);
    assert_eq!(set.capacity(), 4);
    assert_eq!(set.to_vec(), Vec::<[u8; 20]>::new());
    assert_eq!(set.get(0), None);
}

#[test]
fn add_unique_appends_in_order() {
    let set = set_of(4, &[3, 1, 2]);
    assert_eq!(set.to_vec(), vec![addr(3), addr(1), addr(2)]);
    assert_eq!(set.get(1), Some(addr(1)));
    assert_eq!(set.get(3), None);
    assert!(set.contains(&addr(2)));
    assert!(!set.contains(&addr(9)));
}

#[test]
fn adding_twice_is_adding_once() {
    let once = set_of(4, &[1, 2]);
    let mut twice = set_of(4, &[1, 2]);
    assert_eq!(twice.add_unique(addr(1)), Ok(()));
    assert_eq!(twice.add_unique(addr(2)), Ok(()));
    assert_eq!(twice, once);
}

#[test]
fn adding_a_present_address_to_a_full_set_succeeds() {
    let mut set = set_of(2, &[1, 2]);
    assert_eq!(set.add_unique(addr(2)), Ok(()));
    assert_eq!(set.to_vec(), vec![addr(1), addr(2)]);
}

#[test]
fn adding_beyond_capacity_fails_and_changes_nothing() {
    let mut set = set_of(2, &[1, 2]);
    assert_eq!(set.add_unique(addr(3)), Err(GovError::CapacityExceeded));
    assert_eq!(set.to_vec(), vec![addr(1), addr(2)]);
    let mut none: BoundedSet<20> = BoundedSet::new(0);
    assert_eq!(none.add_unique(addr(1)), Err(GovError::CapacityExceeded));
    assert_eq!(none.len(), 0);
}

#[test]
fn removing_an_absent_address_changes_nothing() {
    let mut set = set_of(4, &[1, 2, 3]);
    set.remove_all(&addr(9));
    assert_eq!(set.to_vec(), vec![addr(1), addr(2), addr(3)]);
}

#[test]
fn remove_all_keeps_the_order_of_the_rest() {
    let mut set = set_of(4, &[1, 2, 3]);
    set.remove_all(&addr(2));
    assert_eq!(set.to_vec(), vec![addr(1), addr(3)]);
    assert_eq!(set.capacity(), 4);
}

#[test]
fn move_to_end_makes_the_address_the_last() {
    let mut set = set_of(3, &[1, 2, 3]);
    assert_eq!(set.move_to_end(addr(1)), Ok(()));
    assert_eq!(set.to_vec(), vec![addr(2), addr(3), addr(1)]);
    assert_eq!(set.move_to_end(addr(1)), Ok(()));
    assert_eq!(set.to_vec(), vec![addr(2), addr(3), addr(1)]);
    assert_eq!(set.move_to_end(addr(4)), Err(GovError::CapacityExceeded));
    assert_eq!(set.to_vec(), vec![addr(2), addr(3), addr(1)]);
}

#[test]
fn extend_unique_skips_what_is_there_and_what_repeats() {
    let mut set = set_of(5, &[1, 2]);
    assert_eq!(set.extend_unique(&vec![addr(3), addr(1), addr(4), addr(3)]), Ok(()));
    assert_eq!(set.to_vec(), vec![addr(1), addr(2), addr(3), addr(4)]);
}

#[test]
fn extend_unique_is_all_or_nothing() {
    let mut set = set_of(3, &[1, 2]);
    assert_eq!(set.extend_unique(&vec![addr(3), addr(4)]), Err(GovError::CapacityExceeded));
    assert_eq!(set.to_vec(), vec![addr(1), addr(2)]);
    assert_eq!(set.extend_unique(&vec![addr(3), addr(3), addr(1)]), Ok(()));
    assert_eq!(set.to_vec(), vec![addr(1), addr(2), addr(3)]);
}

#[test]
fn replace_with_takes_each_address_once() {
    let mut set = set_of(3, &[1, 2]);
    assert_eq!(set.replace_with(&vec![addr(7), addr(8), addr(7)]), Ok(()));
    assert_eq!(set.to_vec(), vec![addr(7), addr(8)]);
    assert_eq!(set.replace_with(&vec![addr(1), addr(2), addr(3), addr(4)]), Err(GovError::CapacityExceeded));
    assert_eq!(set.to_vec(), vec![addr(7), addr(8)]);
    assert_eq!(set.capacity(), 3);
}

#[test]
fn remove_each_is_a_set_difference() {
    let mut set = set_of(5, &[1, 2, 3, 4]);
    set.remove_each(&vec![addr(4), addr(9), addr(2), addr(2)]);
    assert_eq!(set.to_vec(), vec![addr(1), addr(3)]);
}

#[test]
fn vec_contains_finds_an_address() {
    let list = vec![[1u8; 32], [2u8; 32]];
    assert!(vec_contains(&list, &[2u8; 32]));
    assert!(!vec_contains(&list, &[3u8; 32]));
}

#[test]
fn new_protocol_info_is_zeroed() {
    let info = ProtocolInfo::new(10, 5);
    assert!(!info.is_init);
    assert_eq!(info.consensus_target_rate, 0);
    assert_eq!(info.protocol_fee, 0);
    assert_eq!(info.protocol_address, [0u8; 32]);
    assert_eq!(info.keepers(), Vec::<[u8; 20]>::new());
    assert_eq!(info.executors(), Vec::<[u8; 32]>::new());
    assert_eq!(info.keepers.capacity(), 10);
    assert_eq!(info.executors.capacity(), 5);
}
