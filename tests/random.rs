use rawproc::random::{RollingRandom, BUCKET_SIZE};

#[test]
fn bytes_come_in_turn_and_wrap() {
    let mut rr = RollingRandom::from_bytes(vec![7, 8, 9]).unwrap();
    assert_eq!(rr.random_u8(), 7);
    assert_eq!(rr.random_u8(), 8);
    assert_eq!(rr.random_u8(), 9);
    assert_eq!(rr.random_u8(), 7);
    // 8 is even, 9 is odd.
    assert!(rr.random_bool());
    assert!(!rr.random_bool());
}

#[test]
fn no_bytes_no_source() {
    assert!(RollingRandom::from_bytes(vec![]).is_none());
}

#[test]
fn fresh_buffer_is_random_and_wraps() {
    let mut rr = RollingRandom::new();
    let first: Vec<u8> = (0..BUCKET_SIZE).map(|_| rr.random_u8()).collect();
    let again: Vec<u8> = (0..BUCKET_SIZE).map(|_| rr.random_u8()).collect();
    assert_eq!(first, again);
    assert!(first.iter().any(|&b| b != 0));
    assert!(first.iter().any(|&b| b % 2 == 0) && first.iter().any(|&b| b % 2 == 1));
}
