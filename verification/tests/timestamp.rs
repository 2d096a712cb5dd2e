use take_slicer::timestamp::{ParseError, TimeError, Timestamp};

#[test]
fn timestamp_zero() {
    let timestamp = "00:00:00.000";

    let duration = Timestamp::parse(timestamp).unwrap();

    assert_eq!(duration, Timestamp::from_millis(0));
}

#[test]
fn timestamp_example() {
    let timestamp = "01:02:03.004";

    let duration = Timestamp::parse(timestamp).unwrap();

    assert_eq!(duration, Timestamp::from_millis(3723004));
}

#[test]
fn format_pads_every_field() {
    assert_eq!(Timestamp::from_millis(0).format(), "00:00:00.000");
    assert_eq!(Timestamp::from_millis(3723004).format(), "01:02:03.004");
    assert_eq!(Timestamp::from_millis(59_999).format(), "00:00:59.999");
    assert_eq!(Timestamp::from_millis(3_599_999).format(), "00:59:59.999");
}

#[test]
fn format_lets_hours_grow() {
    assert_eq!(Timestamp::from_millis(360_000_000).format(), "100:00:00.000");
    assert_eq!(
        Timestamp::from_millis(u64::MAX).format(),
        "5124095576030:25:51.615"
    );
}

#[test]
fn parse_round_trips_through_format() {
    for text in [
        "00:00:00.000",
        "00:00:10.000",
        "01:02:03.004",
        "23:59:59.999",
        "100:00:00.000",
        "5124095576030:25:51.615",
    ] {
        assert_eq!(Timestamp::parse(text).unwrap().format(), text);
    }
    for millis in [0, 1, 999, 1000, 60_000, 3_600_000, 86_399_999, u64::MAX] {
        let stamp = Timestamp::from_millis(millis);
        assert_eq!(Timestamp::parse(&stamp.format()), Ok(stamp));
    }
}

#[test]
fn parse_names_the_bad_field() {
    assert_eq!(Timestamp::parse(""), Err(ParseError::Hours));
    assert_eq!(Timestamp::parse("1:02:03.004"), Err(ParseError::Hours));
    assert_eq!(Timestamp::parse("001:02:03.004"), Err(ParseError::Hours));
    assert_eq!(Timestamp::parse("-1:02:03.004"), Err(ParseError::Hours));
    assert_eq!(Timestamp::parse("+01:02:03.004"), Err(ParseError::Hours));
    assert_eq!(Timestamp::parse("1.5:02:03.004"), Err(ParseError::Hours));
    assert_eq!(Timestamp::parse("01"), Err(ParseError::Minutes));
    assert_eq!(Timestamp::parse("01:2:03.004"), Err(ParseError::Minutes));
    assert_eq!(Timestamp::parse("01:60:03.004"), Err(ParseError::Minutes));
    assert_eq!(Timestamp::parse("01:02"), Err(ParseError::Seconds));
    assert_eq!(Timestamp::parse("01:02:3.004"), Err(ParseError::Seconds));
    assert_eq!(Timestamp::parse("01:02:60.004"), Err(ParseError::Seconds));
    assert_eq!(Timestamp::parse("01:02:03"), Err(ParseError::Millis));
    assert_eq!(Timestamp::parse("01:02:03.04"), Err(ParseError::Millis));
    assert_eq!(Timestamp::parse("01:02:03.0045"), Err(ParseError::Millis));
    assert_eq!(Timestamp::parse("01:02:03.004.5"), Err(ParseError::Millis));
    assert_eq!(Timestamp::parse("01:02:03.00a"), Err(ParseError::Millis));
    assert_eq!(Timestamp::parse("01:02:03:004"), Err(ParseError::Seconds));
}

#[test]
fn parse_rejects_hours_beyond_the_range() {
    assert_eq!(
        Timestamp::parse("5124095576030:25:51.616"),
        Err(ParseError::Hours)
    );
    assert_eq!(
        Timestamp::parse("5124095576031:00:00.000"),
        Err(ParseError::Hours)
    );
    assert_eq!(
        Timestamp::parse("99999999999999999999999999:00:00.000"),
        Err(ParseError::Hours)
    );
}

#[test]
fn add_is_checked() {
    let a = Timestamp::from_millis(10_000);
    let b = Timestamp::from_millis(1_000);
    assert_eq!(a.add(b), Ok(Timestamp::from_millis(11_000)));
    assert_eq!(a.add_millis(2_500), Ok(Timestamp::from_millis(12_500)));
    assert_eq!(
        Timestamp::from_millis(u64::MAX).add(Timestamp::from_millis(1)),
        Err(TimeError::Overflow)
    );
    assert_eq!(
        Timestamp::from_millis(u64::MAX).add(Timestamp::from_millis(0)),
        Ok(Timestamp::from_millis(u64::MAX))
    );
}

#[test]
fn subtract_refuses_an_inverted_pair() {
    let a = Timestamp::from_millis(10_000);
    let b = Timestamp::from_millis(12_500);
    assert_eq!(b.subtract(a), Ok(2_500));
    assert_eq!(a.subtract(a), Ok(0));
    assert_eq!(a.subtract(b), Err(TimeError::Inverted));
}

#[test]
fn subtract_then_add_gives_the_later_back() {
    let a = Timestamp::parse("00:00:10.000").unwrap();
    let b = Timestamp::parse("00:00:12.500").unwrap();
    let span = b.subtract(a).unwrap();
    assert_eq!(span, 2_500);
    assert_eq!(a.add_millis(span), Ok(b));
    assert_eq!(a.add(Timestamp::from_millis(span)), Ok(b));
}

#[test]
fn as_millis_reads_the_count() {
    assert_eq!(Timestamp::from_millis(42).as_millis(), 42);
    assert!(Timestamp::from_millis(1) < Timestamp::from_millis(2));
}
