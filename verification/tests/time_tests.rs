use encode_stream::time::{MediaDuration, MediaTime};

#[test]
fn same_base_addition_is_exact() {
    let t = MediaTime::new(10, 1000);
    let d = MediaDuration::new(10, 1000);
    let s = t.add_duration(&d).unwrap();
    assert_eq!(s.ticks(), 20);
    assert_eq!(s.base(), 1000);
}

#[test]
fn cross_base_addition_is_exact() {
    // 1/2 + 1/3 == 5/6
    let t = MediaTime::new(1, 2);
    let d = MediaDuration::new(1, 3);
    let s = t.add_duration(&d).unwrap();
    assert_eq!(s.ticks(), 5);
    assert_eq!(s.base(), 6);
}

#[test]
fn subtraction_is_exact() {
    let a = MediaTime::new(35, 1000);
    let b = MediaTime::new(20, 1000);
    let d = a.sub_time(&b).unwrap();
    assert_eq!(d.ticks(), 15);
    assert_eq!(d.base(), 1000);
}

#[test]
fn addition_overflow_is_reported() {
    let t = MediaTime::new(i64::MAX, 1);
    let d = MediaDuration::new(1, 1);
    assert!(t.add_duration(&d).is_none());
}

#[test]
fn rounding_is_floor() {
    // 999/1000 s at base 90000 is 89910 ticks exactly
    let t = MediaTime::new(999, 1000);
    assert_eq!(t.round_to_base(90000).unwrap(), 89910);
    // 1/3 s at base 10 rounds down to 3 ticks
    let t = MediaTime::new(1, 3);
    assert_eq!(t.round_to_base(10).unwrap(), 3);
    // floor, not truncation: -1/2 s at base 1 is -1 tick
    let t = MediaTime::new(-1, 2);
    assert_eq!(t.round_to_base(1).unwrap(), -1);
}

#[test]
fn comparisons_are_rational() {
    let half = MediaTime::new(1, 2);
    let third = MediaTime::new(2, 3);
    assert!(half.earlier_than(&third));
    assert!(!third.earlier_than(&half));
    let same = MediaTime::new(500, 1000);
    assert!(half.at_or_before(&same));
    assert!(same.at_or_before(&half));
    assert!(!half.earlier_than(&same));
}
