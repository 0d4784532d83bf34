use busytube::Millis;

#[test]
fn a_duration_gives_back_its_milliseconds() {
    assert_eq!(Millis::new(1709569u64).as_u64(), 1709569);
    assert_eq!(Millis::new(0u64).as_u64(), 0);
    assert_eq!(Millis::new(u64::MAX).as_u64(), u64::MAX);
}

#[test]
fn a_duration_is_made_from_any_narrower_count() {
    assert_eq!(Millis::new(5u8).as_u64(), 5);
    assert_eq!(Millis::new(u16::MAX).as_u64(), 65_535);
    assert_eq!(Millis::new(u32::MAX).as_u64(), 4_294_967_295);
    assert_eq!(Millis::new(true).as_u64(), 1);
}

#[test]
fn the_default_duration_is_empty() {
    assert_eq!(Millis::default().as_u64(), 0);
    assert_eq!(Millis::default(), Millis::new(0u64));
}

#[test]
fn minutes_are_rounded_down() {
    assert_eq!(Millis::new(1709569u64).whole_minutes(), 28);
    assert_eq!(Millis::new(59_999u64).whole_minutes(), 0);
    assert_eq!(Millis::new(60_000u64).whole_minutes(), 1);
    assert_eq!(Millis::new(119_999u64).whole_minutes(), 1);
    assert_eq!(Millis::new(u64::MAX).whole_minutes(), 307_445_734_561_825);
}

#[test]
fn durations_are_ordered_by_length() {
    assert!(Millis::new(1u64) < Millis::new(2u64));
    assert_eq!(Millis::new(7u64), Millis::new(7u64));
}
