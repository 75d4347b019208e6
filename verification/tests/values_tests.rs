//! The inline-or-heap container.

use pg_event_server::values::Values;

#[test]
fn single_element_stays_inline() {
    let v: Values<usize> = Values::from_vec(vec![5]);
    assert!(matches!(v, Values::One(_)));
    assert!(!v.is_empty());
    assert_eq!(v.as_slice(), &[5]);
}

#[test]
fn many_elements_stay_in_order() {
    let v: Values<usize> = Values::from_vec(vec![1, 2, 3]);
    assert!(matches!(v, Values::Many(_)));
    assert_eq!(v.as_slice(), &[1, 2, 3]);
}

#[test]
fn empty_container() {
    let v: Values<u8> = Values::default();
    assert!(v.is_empty());
    assert_eq!(v.as_slice(), &[] as &[u8]);
    let w: Values<u8> = Values::from_vec(Vec::new());
    assert!(w.is_empty());
}
