use runtime_tracker::time::{
    add_days, calculate_precise_minutes, date_from_days, date_range_inclusive, format_date,
    get_month_range, get_month_range_checked, get_week_range, get_week_range_checked, parse_date,
    parse_iso_to_ms, utc_ms_to_iso, LocalDate, TimezoneHelper, MAX_EPOCH_DAY, MIN_EPOCH_DAY,
};

/// 2024-01-15T00:00:00Z, a Monday.
const MON_15_JAN_2024: u64 = 1705276800000;
/// 2024-01-20T00:00:00Z, a Saturday.
const SAT_20_JAN_2024: u64 = 1705708800000;

fn ymd(d: &LocalDate) -> (i32, u32, u32) {
    (d.year, d.month, d.day)
}

#[test]
fn timezone_new_keeps_offset() {
    assert_eq!(TimezoneHelper::new(-5).offset_hours, -5);
    assert_eq!(TimezoneHelper::new(8).offset_hours, 8);
}

#[test]
fn timezone_from_env_str_parses_or_defaults_to_eight() {
    assert_eq!(TimezoneHelper::from_env_str("9").offset_hours, 9);
    assert_eq!(TimezoneHelper::from_env_str("-3").offset_hours, -3);
    assert_eq!(TimezoneHelper::from_env_str("abc").offset_hours, 8);
    assert_eq!(TimezoneHelper::from_env_str("").offset_hours, 8);
    assert_eq!(TimezoneHelper::from_env_str("99999999999").offset_hours, 8);
}

#[test]
fn local_hour_minute_second() {
    let utc = TimezoneHelper::new(0);
    let t = MON_15_JAN_2024 + 90 * 60_000 + 15_000 + 999;
    assert_eq!(utc.get_local_hour(t), 1);
    assert_eq!(utc.get_local_minute(t), 30);
    assert_eq!(utc.get_local_second(t), 15);
    let east = TimezoneHelper::new(8);
    assert_eq!(east.get_local_hour(MON_15_JAN_2024), 8);
}

#[test]
fn local_hour_before_epoch_wraps_to_previous_day() {
    // 1970-01-01T00:00Z is 14:00 on 1969-12-31 at UTC-10.
    let tz = TimezoneHelper::new(-10);
    assert_eq!(tz.get_local_hour(0), 14);
    assert_eq!(tz.get_local_minute(0), 0);
    let d = tz.get_local_date(0);
    assert_eq!(ymd(&d), (1969, 12, 31));
    assert_eq!(d.days, -1);
}

#[test]
fn local_date_follows_offset() {
    let utc = TimezoneHelper::new(0);
    assert_eq!(format_date(&utc.get_local_date(MON_15_JAN_2024)), "2024-01-15");
    let west = TimezoneHelper::new(-5);
    assert_eq!(format_date(&west.get_local_date(MON_15_JAN_2024)), "2024-01-14");
    assert_eq!(west.get_local_hour(MON_15_JAN_2024), 19);
    let east = TimezoneHelper::new(8);
    assert_eq!(format_date(&east.get_today(MON_15_JAN_2024 - 1)), "2024-01-15");
}

#[test]
fn local_date_to_utc_midnight() {
    let tz = TimezoneHelper::new(8);
    let d = parse_date("2024-01-15").unwrap();
    assert_eq!(tz.local_date_to_utc_midnight_ms(&d), MON_15_JAN_2024 - 8 * 3_600_000);
    let utc = TimezoneHelper::new(0);
    assert_eq!(utc.local_date_to_utc_midnight_ms(&d), MON_15_JAN_2024);
}

#[test]
fn format_and_parse_dates() {
    assert_eq!(format_date(&date_from_days(0)), "1970-01-01");
    let d = parse_date("2024-2-5").unwrap();
    assert_eq!(ymd(&d), (2024, 2, 5));
    assert_eq!(format_date(&d), "2024-02-05");
    assert_eq!(ymd(&parse_date("2024-02-29").unwrap()), (2024, 2, 29));
    assert!(parse_date("2023-02-29").is_none());
    assert!(parse_date("2024-13-01").is_none());
    assert!(parse_date("2024-01").is_none());
    assert!(parse_date("2024-01-01-01").is_none());
    assert!(parse_date("abcd-01-01").is_none());
    assert!(parse_date("").is_none());
}

#[test]
fn format_date_round_trips_through_parse() {
    for days in [-1i64, 0, 1, 19737, 20000, -719162] {
        let d = date_from_days(days);
        let back = parse_date(&format_date(&d)).unwrap();
        assert_eq!(back.days, days);
    }
}

#[test]
fn add_days_moves_across_months() {
    let d = parse_date("2024-02-28").unwrap();
    let next = add_days(&d, 1).unwrap();
    assert_eq!(ymd(&next), (2024, 2, 29));
    let after = add_days(&d, 2).unwrap();
    assert_eq!(ymd(&after), (2024, 3, 1));
    let before = add_days(&d, -59).unwrap();
    assert_eq!(ymd(&before), (2023, 12, 31));
}

#[test]
fn iso_timestamps() {
    assert_eq!(utc_ms_to_iso(0), "1970-01-01T00:00:00.000Z");
    assert_eq!(utc_ms_to_iso(MON_15_JAN_2024 + 123), "2024-01-15T00:00:00.123Z");
    assert_eq!(utc_ms_to_iso(MON_15_JAN_2024 + 3_723_004), "2024-01-15T01:02:03.004Z");
}

#[test]
fn parse_iso_reads_what_utc_ms_to_iso_writes() {
    for ms in [0u64, 1, 999, MON_15_JAN_2024 + 123, SAT_20_JAN_2024 + 86_399_999] {
        assert_eq!(parse_iso_to_ms(&utc_ms_to_iso(ms)), ms);
    }
}

#[test]
fn parse_iso_forms() {
    assert_eq!(parse_iso_to_ms("2024-01-15T01:02:03Z"), MON_15_JAN_2024 + 3_723_000);
    assert_eq!(parse_iso_to_ms("2024-01-15T01:02:03.5Z"), MON_15_JAN_2024 + 3_723_005);
    assert_eq!(parse_iso_to_ms("2024-01-15T00:00:00"), MON_15_JAN_2024);
    assert_eq!(parse_iso_to_ms("garbage"), 0);
    assert_eq!(parse_iso_to_ms("2024-01-15"), 0);
    assert_eq!(parse_iso_to_ms("2024-02-30T00:00:00Z"), 0);
    assert_eq!(parse_iso_to_ms("2024-01-15T00:00Z"), 0);
}

#[test]
fn week_range_of_a_monday_is_that_day() {
    let (s, e) = get_week_range(8, 0, MON_15_JAN_2024 + 3 * 3_600_000);
    assert_eq!(format_date(&s), "2024-01-15");
    assert_eq!(format_date(&e), "2024-01-15");
    let (s, e) = get_week_range(8, -1, MON_15_JAN_2024 + 3 * 3_600_000);
    assert_eq!(format_date(&s), "2024-01-08");
    assert_eq!(format_date(&e), "2024-01-14");
}

#[test]
fn week_range_current_week_ends_today() {
    let (s, e) = get_week_range(0, 0, SAT_20_JAN_2024);
    assert_eq!(format_date(&s), "2024-01-15");
    assert_eq!(format_date(&e), "2024-01-20");
    let (s, e) = get_week_range(0, 1, SAT_20_JAN_2024);
    assert_eq!(format_date(&s), "2024-01-22");
    assert_eq!(format_date(&e), "2024-01-28");
    assert!(e.days - s.days == 6);
}

#[test]
fn week_range_checked_refuses_far_weeks() {
    assert!(get_week_range_checked(0, 0, SAT_20_JAN_2024).is_some());
    assert!(get_week_range_checked(0, i32::MAX, SAT_20_JAN_2024).is_none());
    assert!(get_week_range_checked(0, i32::MIN, SAT_20_JAN_2024).is_none());
}

#[test]
fn month_ranges() {
    let (s, e) = get_month_range(0, 0, SAT_20_JAN_2024);
    assert_eq!(format_date(&s), "2024-01-01");
    assert_eq!(format_date(&e), "2024-01-20");
    let (s, e) = get_month_range(0, -1, SAT_20_JAN_2024);
    assert_eq!(format_date(&s), "2023-12-01");
    assert_eq!(format_date(&e), "2023-12-31");
    let (s, e) = get_month_range(0, 1, SAT_20_JAN_2024);
    assert_eq!(format_date(&s), "2024-02-01");
    assert_eq!(format_date(&e), "2024-02-29");
    let (s, e) = get_month_range(0, -13, SAT_20_JAN_2024);
    assert_eq!(format_date(&s), "2022-12-01");
    assert_eq!(format_date(&e), "2022-12-31");
}

#[test]
fn month_range_checked_refuses_far_months() {
    assert!(get_month_range_checked(0, 0, SAT_20_JAN_2024).is_some());
    assert!(get_month_range_checked(0, i32::MAX, SAT_20_JAN_2024).is_none());
}

#[test]
fn date_range_inclusive_lists_each_day() {
    let s = parse_date("2024-02-27").unwrap();
    let e = parse_date("2024-03-01").unwrap();
    let days: Vec<String> = date_range_inclusive(&s, &e).iter().map(format_date).collect();
    assert_eq!(days, vec!["2024-02-27", "2024-02-28", "2024-02-29", "2024-03-01"]);
    assert_eq!(date_range_inclusive(&s, &s).len(), 1);
    assert!(date_range_inclusive(&e, &s).is_empty());
}

#[test]
fn precise_minutes_in_hundredths() {
    assert_eq!(calculate_precise_minutes(0, 90_000), 150);
    assert_eq!(calculate_precise_minutes(0, 60_000), 100);
    assert_eq!(calculate_precise_minutes(0, 59_999), 100);
    assert_eq!(calculate_precise_minutes(0, 299), 0);
    assert_eq!(calculate_precise_minutes(0, 300), 1);
    assert_eq!(calculate_precise_minutes(10, 10), 0);
    assert_eq!(calculate_precise_minutes(10, 5), 0);
}

#[test]
fn weeks_start_on_monday() {
    for now in [MON_15_JAN_2024, SAT_20_JAN_2024, SAT_20_JAN_2024 + 86_400_000, 0, 86_400_000 * 3] {
        for offset in [-3, -1, 0, 1, 52] {
            let (s, e) = get_week_range(0, offset, now);
            // 1970-01-05 was a Monday.
            assert_eq!((s.days - 4).rem_euclid(7), 0);
            assert_eq!(format_date(&date_from_days(s.days)), format_date(&s));
            if offset != 0 {
                assert_eq!(e.days - s.days, 6);
            }
        }
    }
}

#[test]
fn canonical_dates_format_back() {
    for s in ["2024-01-15", "0001-01-01", "2000-02-29", "9999-12-31", "0000-03-01"] {
        let d = parse_date(s).unwrap();
        assert_eq!(format_date(&d), s);
    }
    let d = parse_date("2024-1-5").unwrap();
    assert_eq!((d.year, d.month, d.day), (2024, 1, 5));
}

#[test]
fn earliest_and_latest_dates() {
    let first = date_from_days(MIN_EPOCH_DAY);
    assert_eq!((first.year, first.month, first.day), (-262143, 1, 1));
    let last = date_from_days(MAX_EPOCH_DAY);
    assert_eq!((last.year, last.month, last.day), (262142, 12, 31));
}
