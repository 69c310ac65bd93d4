use zerovec::types::{
    DateTimeError, DayOfMonth, DayOfWeekInMonth, Era, FormattableYear, IsoHour, IsoMinute,
    IsoSecond, IsoWeekday, MonthCode, NanoSecond, Time,
};
use zerovec::tinystr::{TinyStr4, TinyStr16, TinyStrError};

#[test]
fn test_day_of_week_in_month() {
    assert_eq!(DayOfWeekInMonth::from(DayOfMonth(1)).0, 1);
    assert_eq!(DayOfWeekInMonth::from(DayOfMonth(7)).0, 1);
    assert_eq!(DayOfWeekInMonth::from(DayOfMonth(8)).0, 2);
}

#[test]
fn test_iso_hour_arithmetic() {
    const HOUR_MAX: u8 = 24;
    const HOUR_VALUE: u8 = 5;
    let hour = IsoHour(HOUR_VALUE);

    // middle of bounds
    assert_eq!(
        hour.try_add(HOUR_VALUE - 1),
        Some(IsoHour(HOUR_VALUE + (HOUR_VALUE - 1)))
    );
    assert_eq!(
        hour.try_sub(HOUR_VALUE - 1),
        Some(IsoHour(HOUR_VALUE - (HOUR_VALUE - 1)))
    );

    // edge of bounds
    assert_eq!(hour.try_add(HOUR_MAX - HOUR_VALUE), Some(IsoHour(HOUR_MAX)));
    assert_eq!(hour.try_sub(HOUR_VALUE), Some(IsoHour(0)));

    // out of bounds
    assert_eq!(hour.try_add(1 + HOUR_MAX - HOUR_VALUE), None);
    assert_eq!(hour.try_sub(1 + HOUR_VALUE), None);
}

#[test]
fn test_iso_minute_arithmetic() {
    const MINUTE_MAX: u8 = 60;
    const MINUTE_VALUE: u8 = 5;
    let minute = IsoMinute(MINUTE_VALUE);

    // middle of bounds
    assert_eq!(
        minute.try_add(MINUTE_VALUE - 1),
        Some(IsoMinute(MINUTE_VALUE + (MINUTE_VALUE - 1)))
    );
    assert_eq!(
        minute.try_sub(MINUTE_VALUE - 1),
        Some(IsoMinute(MINUTE_VALUE - (MINUTE_VALUE - 1)))
    );

    // edge of bounds
    assert_eq!(
        minute.try_add(MINUTE_MAX - MINUTE_VALUE),
        Some(IsoMinute(MINUTE_MAX))
    );
    assert_eq!(minute.try_sub(MINUTE_VALUE), Some(IsoMinute(0)));

    // out of bounds
    assert_eq!(minute.try_add(1 + MINUTE_MAX - MINUTE_VALUE), None);
    assert_eq!(minute.try_sub(1 + MINUTE_VALUE), None);
}

#[test]
fn test_iso_second_arithmetic() {
    const SECOND_MAX: u8 = 61;
    const SECOND_VALUE: u8 = 5;
    let second = IsoSecond(SECOND_VALUE);

    // middle of bounds
    assert_eq!(
        second.try_add(SECOND_VALUE - 1),
        Some(IsoSecond(SECOND_VALUE + (SECOND_VALUE - 1)))
    );
    assert_eq!(
        second.try_sub(SECOND_VALUE - 1),
        Some(IsoSecond(SECOND_VALUE - (SECOND_VALUE - 1)))
    );

    // edge of bounds
    assert_eq!(
        second.try_add(SECOND_MAX - SECOND_VALUE),
        Some(IsoSecond(SECOND_MAX))
    );
    assert_eq!(second.try_sub(SECOND_VALUE), Some(IsoSecond(0)));

    // out of bounds
    assert_eq!(second.try_add(1 + SECOND_MAX - SECOND_VALUE), None);
    assert_eq!(second.try_sub(1 + SECOND_VALUE), None);
}

#[test]
fn test_iso_nano_second_arithmetic() {
    const NANO_SECOND_MAX: u32 = 999_999_999;
    const NANO_SECOND_VALUE: u32 = 5;
    let nano_second = NanoSecond(NANO_SECOND_VALUE);

    // middle of bounds
    assert_eq!(
        nano_second.try_add(NANO_SECOND_VALUE - 1),
        Some(NanoSecond(NANO_SECOND_VALUE + (NANO_SECOND_VALUE - 1)))
    );
    assert_eq!(
        nano_second.try_sub(NANO_SECOND_VALUE - 1),
        Some(NanoSecond(NANO_SECOND_VALUE - (NANO_SECOND_VALUE - 1)))
    );

    // edge of bounds
    assert_eq!(
        nano_second.try_add(NANO_SECOND_MAX - NANO_SECOND_VALUE),
        Some(NanoSecond(NANO_SECOND_MAX))
    );
    assert_eq!(nano_second.try_sub(NANO_SECOND_VALUE), Some(NanoSecond(0)));

    // out of bounds
    assert_eq!(
        nano_second.try_add(1 + NANO_SECOND_MAX - NANO_SECOND_VALUE),
        None
    );
    assert_eq!(nano_second.try_sub(1 + NANO_SECOND_VALUE), None);
}

#[test]
fn test_time_try_new_in_bounds() {
    let t = Time::try_new(23, 59, 60, 123_456_789).expect("all components in bounds");
    assert_eq!(t.hour.number(), 23);
    assert_eq!(t.minute.number(), 59);
    assert_eq!(t.second.number(), 60);
    assert_eq!(t.nanosecond.number(), 123_456_789);
    assert_eq!(
        t,
        Time::new(
            IsoHour(23),
            IsoMinute(59),
            IsoSecond(60),
            NanoSecond(123_456_789)
        )
    );
}

#[test]
fn test_time_try_new_out_of_bounds() {
    assert_eq!(
        Time::try_new(25, 0, 0, 0),
        Err(DateTimeError::Overflow {
            field: "hour",
            max: 24
        })
    );
    assert_eq!(
        Time::try_new(0, 61, 0, 0),
        Err(DateTimeError::Overflow {
            field: "minute",
            max: 60
        })
    );
    assert_eq!(
        Time::try_new(0, 0, 62, 0),
        Err(DateTimeError::Overflow {
            field: "second",
            max: 61
        })
    );
    assert_eq!(
        Time::try_new(0, 0, 0, 1_000_000_000),
        Err(DateTimeError::Overflow {
            field: "nanosecond",
            max: 999_999_999
        })
    );
}

#[test]
fn test_weekday_from_number() {
    assert_eq!(IsoWeekday::Sunday, IsoWeekday::from(0));
    assert_eq!(IsoWeekday::Monday, IsoWeekday::from(1));
    assert_eq!(IsoWeekday::Sunday, IsoWeekday::from(7));
    assert_eq!(IsoWeekday::Monday, IsoWeekday::from(8));
    assert_eq!(IsoWeekday::Saturday, IsoWeekday::from(13));
}

#[test]
fn test_tiny_str_validation() {
    let ad = TinyStr16::from_bytes(b"ad").expect("short ASCII is accepted");
    assert_eq!(ad.as_bytes(), b"ad");
    assert_eq!(ad.len(), 2);
    assert_eq!(
        TinyStr16::from_bytes(b"seventeen-bytes--"),
        Err(TinyStrError::TooLarge)
    );
    assert_eq!(
        TinyStr16::from_bytes(&[b'a', 0, b'b']),
        Err(TinyStrError::NonAscii)
    );
    assert_eq!(
        TinyStr4::from_bytes(&[0xC3, 0xA9]),
        Err(TinyStrError::NonAscii)
    );
    assert_eq!(TinyStr4::from_bytes(b"M01A").expect("four bytes fit").len(), 4);
    assert_eq!(TinyStr4::from_bytes(b"M01AB"), Err(TinyStrError::TooLarge));
}

#[test]
fn test_era_and_month_code() {
    let era = Era::from(TinyStr16::from_bytes(b"ce").unwrap());
    let year = FormattableYear::new(era.clone(), 2022);
    assert_eq!(year.number, 2022);
    assert_eq!(year.related_iso, None);
    assert_eq!(year.era, era);

    let code = MonthCode::from(TinyStr4::from_bytes(b"M01").unwrap());
    assert_eq!(code.0.as_bytes(), b"M01");
}
