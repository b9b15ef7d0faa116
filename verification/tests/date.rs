use vnf::date::{
    timestamptz_micros, Date, EpochDuration, VerticaDate, _microseconds_since_midnight,
    _seconds_since_midnight, _timetz,
};

#[test]
fn test_vertica_epoch_days() {
    assert_eq!(
        -358,
        Date::from_ymd(1999, 1, 8)
            .unwrap()
            .to_y2k_epoch_duration()
            .num_days()
    );
    assert_eq!(
        0,
        Date::from_ymd(2000, 1, 1)
            .unwrap()
            .to_y2k_epoch_duration()
            .num_days()
    );
    assert_eq!(
        366,
        Date::from_ymd(2001, 1, 1)
            .unwrap()
            .to_y2k_epoch_duration()
            .num_days()
    );
}

#[test]
fn test_seconds_since_midnight() {
    assert_eq!(
        [0xd0u8, 0x97, 0x1, 0x0],
        _seconds_since_midnight(29, 0, 0).to_le_bytes()
    )
}

#[test]
fn test_microseconds_since_midnight() {
    assert_eq!(1_000_000u64, _microseconds_since_midnight(0, 0, 1));
    assert_eq!(61_000_000u64, _microseconds_since_midnight(0, 1, 1));
    assert_eq!(3661_000_000u64, _microseconds_since_midnight(1, 1, 1));
    assert_eq!(
        [0x80u8, 0xf0, 0x79, 0xf0, 0x10, 0, 0, 0],
        _microseconds_since_midnight(20, 12, 34).to_le_bytes()
    )
}

#[test]
fn test_timetz() {
    // TIMETZ - 15:12:34-05
    assert_eq!(
        [0xd0u8, 0x97, 0x01, 0x80, 0xf0, 0x79, 0xf0, 0x10],
        _timetz(15, 12, 34, -5).to_le_bytes()
    )
}

#[test]
fn timetz_is_micros_above_zone_seconds() {
    assert_eq!(
        ((3600u64 * 10 + 60 * 30 + 15) * 1_000_000) * (1 << 24) + 3600 * 22,
        _timetz(12, 30, 15, 2)
    );
    assert_eq!(3600 * 24, _timetz(0, 0, 0, 0));
    assert_eq!(0, _timetz(24, 0, 0, 24));
    assert_eq!(0xFFFF_FFFF_FFFF_F1F0, _timetz(30, 0, 0, 25));
}

#[test]
fn seconds_since_midnight_may_be_negative() {
    assert_eq!(-3600, _seconds_since_midnight(-1, 0, 0));
    assert_eq!(59, _seconds_since_midnight(1, -60, 59));
    assert_eq!(86399, _seconds_since_midnight(23, 59, 59));
    assert_eq!(i32::MAX, _seconds_since_midnight(596523, 14, 7));
}

#[test]
fn dates_that_do_not_exist() {
    assert!(Date::from_ymd(2000, 2, 29).is_some());
    assert!(Date::from_ymd(1900, 2, 29).is_none());
    assert!(Date::from_ymd(2023, 4, 31).is_none());
    assert!(Date::from_ymd(2015, 0, 14).is_none());
    assert!(Date::from_ymd(2015, 13, 1).is_none());
    assert!(Date::from_ymd(2015, 3, 0).is_none());
    assert!(Date::from_ymd(-4, 2, 29).is_some());
    assert!(Date::from_ymd(400000, 1, 1).is_none());
    assert!(Date::from_ymd(-400000, 1, 1).is_none());
    assert!(Date::from_ymd(262142, 12, 31).is_some());
    assert!(Date::from_ymd(262143, 1, 1).is_none());
    assert!(Date::from_ymd(-262143, 1, 1).is_some());
    assert!(Date::from_ymd(-262144, 12, 31).is_none());
    let leap = Date::from_ymd(2024, 2, 29).unwrap();
    assert_eq!((2024, 2, 29), (leap.year(), leap.month(), leap.day()));
}

#[test]
fn dates_exist_where_the_calendar_has_them() {
    let years = [
        -262143, -801, -800, -400, -101, -100, -5, -4, -1, 0, 1, 4, 100, 400, 1582, 1899, 1900,
        1999, 2000, 2001, 2023, 2024, 2100, 2400, 262141, 262142,
    ];
    for year in years.iter() {
        for month in 0..14u32 {
            for day in 0..33u32 {
                assert_eq!(
                    chrono::NaiveDate::from_ymd_opt(*year, month, day).is_some(),
                    Date::from_ymd(*year, month, day).is_some()
                );
            }
        }
    }
}

#[test]
fn days_are_counted_across_the_whole_calendar() {
    let day = |y: i32, m: u32, d: u32| {
        Date::from_ymd(y, m, d)
            .unwrap()
            .to_y2k_epoch_duration()
            .num_days()
    };
    assert_eq!(1, day(2000, 1, 2));
    assert_eq!(-1, day(1999, 12, 31));
    assert_eq!(59, day(2000, 2, 29));
    assert_eq!(146_097, day(2400, 1, 1));
    assert_eq!(-146_097, day(1600, 1, 1));
    assert_eq!(-10_957, day(1970, 1, 1));
    assert_eq!(95_015_279, day(262142, 12, 31));
    assert_eq!(-96_476_249, day(-262143, 1, 1));
    assert_eq!(-730_485, day(0, 1, 1));
    assert_eq!(-730_486, day(-1, 12, 31));
}

#[test]
fn timestamps_count_microseconds() {
    // 1999-02-23 03:11:52.35
    let stamp = Date::from_ymd(1999, 2, 23)
        .unwrap()
        .and_hms_micro(3, 11, 52, 350_000)
        .unwrap();
    assert_eq!(
        [0x30u8, 0x85, 0xB3, 0x4F, 0x7E, 0xE7, 0xFF, 0xFF],
        stamp
            .to_y2k_epoch_duration()
            .num_microseconds()
            .unwrap()
            .to_le_bytes()
    );
    let first = Date::from_ymd(2000, 1, 1).unwrap().and_hms(0, 0, 0).unwrap();
    assert_eq!(Some(0), first.to_y2k_epoch_duration().num_microseconds());
    let next = Date::from_ymd(2000, 1, 1)
        .unwrap()
        .and_hms_micro(0, 0, 1, 1)
        .unwrap();
    assert_eq!(Some(1_000_001), next.to_y2k_epoch_duration().num_microseconds());
    let last = Date::from_ymd(1999, 12, 31)
        .unwrap()
        .and_hms_micro(23, 59, 59, 999_999)
        .unwrap();
    assert_eq!(Some(-1), last.to_y2k_epoch_duration().num_microseconds());
    assert_eq!(
        EpochDuration::new(-1, 86_399_999_999).unwrap(),
        last.to_y2k_epoch_duration()
    );
}

#[test]
fn whole_days_drop_the_fraction_towards_zero() {
    let noon_before = Date::from_ymd(1999, 12, 31)
        .unwrap()
        .and_hms(12, 0, 0)
        .unwrap();
    assert_eq!(0, noon_before.to_y2k_epoch_duration().num_days());
    let noon_after = Date::from_ymd(2000, 1, 1).unwrap().and_hms(12, 0, 0).unwrap();
    assert_eq!(0, noon_after.to_y2k_epoch_duration().num_days());
    let earlier = Date::from_ymd(1999, 12, 30)
        .unwrap()
        .and_hms(0, 0, 1)
        .unwrap();
    assert_eq!(-1, earlier.to_y2k_epoch_duration().num_days());
    let exact = Date::from_ymd(1999, 12, 30).unwrap().and_hms(0, 0, 0).unwrap();
    assert_eq!(-2, exact.to_y2k_epoch_duration().num_days());
    assert_eq!(-1, EpochDuration::new(-2, 1).unwrap().num_days());
    assert_eq!(5, EpochDuration::new(5, 86_399_999_999).unwrap().num_days());
}

#[test]
fn microseconds_that_64_bits_cannot_hold() {
    assert_eq!(
        None,
        EpochDuration::new(i64::MAX, 0).unwrap().num_microseconds()
    );
    assert_eq!(
        None,
        EpochDuration::new(i64::MIN, 5).unwrap().num_microseconds()
    );
    assert_eq!(
        Some(i64::MAX),
        EpochDuration::new(106_751_991, 14_454_775_807).unwrap().num_microseconds()
    );
    assert_eq!(
        None,
        EpochDuration::new(106_751_991, 14_454_775_808).unwrap().num_microseconds()
    );
    assert_eq!(
        Some(i64::MIN),
        EpochDuration::new(-106_751_992, 71_945_224_192).unwrap().num_microseconds()
    );
    assert_eq!(
        None,
        EpochDuration::new(-106_751_992, 71_945_224_191).unwrap().num_microseconds()
    );
}

#[test]
fn spans_keep_their_microseconds_within_a_day() {
    assert!(EpochDuration::new(0, -1).is_none());
    assert!(EpochDuration::new(0, 86_400_000_000).is_none());
    let span = EpochDuration::new(-3, 86_399_999_999).unwrap();
    assert_eq!(-3, span.days());
    assert_eq!(86_399_999_999, span.day_micros());
}

#[test]
fn dates_and_times_give_their_parts_back() {
    let day = Date::from_ymd(-44, 3, 15).unwrap();
    assert_eq!((-44, 3, 15), (day.year(), day.month(), day.day()));
    let moment = day.and_hms_micro(11, 22, 33, 444_555).unwrap();
    assert_eq!(day, moment.date());
    assert_eq!(
        (11, 22, 33, 444_555),
        (moment.hour(), moment.minute(), moment.second(), moment.micro())
    );
}

#[test]
fn times_that_do_not_exist() {
    let day = Date::from_ymd(2020, 5, 17).unwrap();
    assert!(day.and_hms(24, 0, 0).is_none());
    assert!(day.and_hms(0, 60, 0).is_none());
    assert!(day.and_hms(0, 0, 60).is_none());
    assert!(day.and_hms_micro(0, 0, 0, 1_000_000).is_none());
    assert!(day.and_hms_micro(23, 59, 59, 999_999).is_some());
}

#[test]
fn zone_offset_moves_the_timestamp() {
    // 1999-01-08 07:04:37-05 is 12:04:37 in the zone of the epoch.
    let local = Date::from_ymd(1999, 1, 8)
        .unwrap()
        .and_hms(7, 4, 37)
        .unwrap()
        .to_y2k_epoch_duration()
        .num_microseconds()
        .unwrap();
    let moved = timestamptz_micros(local, -5).unwrap();
    assert_eq!(
        [0x40u8, 0x1F, 0x3E, 0x64, 0xE8, 0xE3, 0xFF, 0xFF],
        moved.to_le_bytes()
    );
    assert_eq!(Some(-3_600_000_000), timestamptz_micros(0, 1));
    assert_eq!(None, timestamptz_micros(i64::MAX, -1));
    assert_eq!(None, timestamptz_micros(i64::MIN, 1));
    assert_eq!(Some(i64::MAX), timestamptz_micros(i64::MAX - 3_600_000_000, -1));
}
