use gov_relay::bytes::{array_eq, array_from_vec, vec_eq, vec_from_array};

#[test]
fn array_eq_compares_every_byte() {
    let a = [1u8, 2, 3, 4];
    let mut b = a;
    assert!(array_eq(&a, &b));
    b[3] = 9;
    assert!(!array_eq(&a, &b));
}

#[test]
fn vec_eq_rejects_other_lengths() {
    assert!(vec_eq(&vec![1, 2], &vec![1, 2]));
    assert!(!vec_eq(&vec![1, 2], &vec![1, 2, 3]));
    assert!(!vec_eq(&vec![1, 2], &vec![1, 3]));
}

#[test]
fn array_from_vec_needs_the_exact_length() {
    assert_eq!(array_from_vec::<4>(&vec![1, 2, 3, 4]), Some([1u8, 2, 3, 4]));
    assert_eq!(array_from_vec::<4>(&vec![1, 2, 3]), None);
    assert_eq!(array_from_vec::<4>(&vec![1, 2, 3, 4, 5]), None);
    assert_eq!(vec_from_array(&[7u8, 8]), vec![7, 8]);
}
