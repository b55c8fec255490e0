use schedule_queue::Timestamp;

#[test]
fn from_nanos_keeps_the_count() {
    assert_eq!(Timestamp::from_nanos(12).nanos(), 12);
    assert_eq!(Timestamp::from_nanos(-12).nanos(), -12);
    assert_eq!(Timestamp::from_nanos(0), Timestamp { nanos: 0 });
}

#[test]
fn nanos_since_an_earlier_time_is_the_difference() {
    let later = Timestamp::from_nanos(5_000_000_123);
    let earlier = Timestamp::from_nanos(2_000_000_000);
    assert_eq!(later.nanos_since(earlier), 3_000_000_123);
}

#[test]
fn nanos_since_a_later_time_is_zero() {
    let later = Timestamp::from_nanos(5_000_000_123);
    let earlier = Timestamp::from_nanos(2_000_000_000);
    assert_eq!(earlier.nanos_since(later), 0);
}

#[test]
fn nanos_since_the_same_time_is_zero() {
    let time = Timestamp::from_nanos(77);
    assert_eq!(time.nanos_since(time), 0);
}

#[test]
fn nanos_since_across_the_epoch() {
    assert_eq!(Timestamp::from_nanos(40).nanos_since(Timestamp::from_nanos(-2)), 42);
    assert_eq!(Timestamp::from_nanos(0).nanos_since(Timestamp::from_nanos(-1)), 1);
    assert_eq!(Timestamp::from_nanos(-1).nanos_since(Timestamp::from_nanos(0)), 0);
}

#[test]
fn nanos_since_before_the_epoch() {
    assert_eq!(Timestamp::from_nanos(-10).nanos_since(Timestamp::from_nanos(-25)), 15);
    assert_eq!(Timestamp::from_nanos(-25).nanos_since(Timestamp::from_nanos(-10)), 0);
}

#[test]
fn nanos_since_at_the_ends_of_the_range() {
    let first = Timestamp::from_nanos(i128::MIN);
    let last = Timestamp::from_nanos(i128::MAX);
    assert_eq!(last.nanos_since(first), u128::MAX);
    assert_eq!(first.nanos_since(last), 0);
    assert_eq!(last.nanos_since(Timestamp::from_nanos(0)), i128::MAX as u128);
    assert_eq!(Timestamp::from_nanos(0).nanos_since(first), 1u128 << 127);
    assert_eq!(Timestamp::from_nanos(-1).nanos_since(first), i128::MAX as u128);
}
