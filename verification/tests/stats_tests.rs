use runtime_tracker::eyetime::{
    add_eye_time, any_device_active, device_activity, get_daily_minutes, get_monthly_minutes,
    get_weekly_minutes, plan_eye_transition, split_time_segments,
};
use runtime_tracker::models::{DailyEyeTime, DailyStat, DateRange, EyeDeviceState, EyeGlobalState, StatsResult};
use runtime_tracker::stats::{
    get_daily_stats, get_monthly_stats, get_weekly_stats, process_range_stats, process_stats, sum_saturating,
};
use runtime_tracker::tally::tally;
use runtime_tracker::time::TimezoneHelper;

/// 2024-01-15T00:00:00Z.
const MON_15_JAN_2024: u64 = 1705276800000;
const HOUR_MS: u64 = 3_600_000;

fn hours(values: &[(usize, u64)]) -> Vec<u64> {
    let mut h = vec![0u64; 24];
    for &(i, v) in values {
        h[i] = v;
    }
    h
}

fn row(date: &str, app: &str, pkg: &str, h: Vec<u64>) -> DailyStat {
    DailyStat {
        device_id: "phone".to_string(),
        date: date.to_string(),
        app_name: app.to_string(),
        package_name: pkg.to_string(),
        hourly_usage: h,
    }
}

fn p(k: &str, v: u64) -> (String, u64) {
    (k.to_string(), v)
}

fn day_rows() -> Vec<DailyStat> {
    vec![
        row("2024-01-15", "A", "a", hours(&[(9, 3000), (10, 1500)])),
        row("2024-01-15", "B", "b", hours(&[(10, 600)])),
        row("2024-01-15", "A", "a2", hours(&[(10, 500)])),
        row("2024-01-15", "C", "c", hours(&[])),
    ]
}

#[test]
fn tally_sums_by_key_in_first_appearance_order() {
    let items = vec![p("x", 1), p("y", 2), p("x", 3), p("z", 0)];
    assert_eq!(tally(&items), vec![p("x", 4), p("y", 2), p("z", 0)]);
    assert_eq!(tally(&vec![]), vec![]);
    assert_eq!(tally(&vec![p("x", u64::MAX), p("x", 5)]), vec![p("x", u64::MAX)]);
}

#[test]
fn sum_saturating_caps_at_max() {
    assert_eq!(sum_saturating(&vec![1, 2, 3]), 6);
    assert_eq!(sum_saturating(&vec![]), 0);
    assert_eq!(sum_saturating(&vec![u64::MAX, 1]), u64::MAX);
}

#[test]
fn empty_stats() {
    let s = StatsResult::empty();
    assert_eq!(s.total_usage, 0);
    assert!(s.app_stats.is_empty());
    assert_eq!(s.hourly_stats, vec![0u64; 24]);
    assert!(s.app_hourly_stats.is_empty());
}

#[test]
fn daily_stats_aggregate_by_app_and_hour() {
    let s = process_stats(&day_rows());
    assert_eq!(s.total_usage, 5600);
    assert_eq!(s.app_stats, vec![p("A", 5000), p("B", 600)]);
    assert_eq!(s.hourly_stats, hours(&[(9, 3000), (10, 2600)]));
    assert_eq!(s.app_hourly_stats.len(), 2);
    assert_eq!(s.app_hourly_stats[0], ("A".to_string(), hours(&[(9, 3000), (10, 2000)])));
    assert_eq!(s.app_hourly_stats[1], ("B".to_string(), hours(&[(10, 600)])));
}

#[test]
fn daily_totals_agree() {
    let s = get_daily_stats(&day_rows());
    let by_app: u64 = s.app_stats.iter().map(|(_, v)| v).sum();
    let by_hour: u64 = s.hourly_stats.iter().sum();
    assert_eq!(s.total_usage, by_app);
    assert_eq!(s.total_usage, by_hour);
}

#[test]
fn daily_stats_of_no_rows_is_empty() {
    assert_eq!(get_daily_stats(&vec![]), StatsResult::empty());
}

#[test]
fn range_stats_by_day_and_app() {
    let rows = vec![
        row("2024-01-15", "A", "a", hours(&[(9, 100)])),
        row("2024-01-16", "A", "a", hours(&[(9, 200), (10, 50)])),
        row("2024-01-15", "B", "b", hours(&[(1, 30)])),
        row("2024-01-17", "B", "b", hours(&[])),
    ];
    let (daily, per_app) = process_range_stats(&rows);
    assert_eq!(daily, vec![p("2024-01-15", 130), p("2024-01-16", 250)]);
    assert_eq!(per_app.len(), 2);
    assert_eq!(per_app[0], ("A".to_string(), vec![p("2024-01-15", 100), p("2024-01-16", 250)]));
    assert_eq!(per_app[1], ("B".to_string(), vec![p("2024-01-15", 30)]));

    let range = DateRange { start: "2024-01-15".to_string(), end: "2024-01-21".to_string() };
    let week = get_weekly_stats(&rows, None, -1, range.clone());
    assert_eq!(week.week_offset, Some(-1));
    assert_eq!(week.month_offset, None);
    assert_eq!(week.week_range, Some(range.clone()));
    assert!(week.month_range.is_none());
    assert_eq!(week.daily_totals, daily);
    assert_eq!(week.app_daily_stats, per_app);

    let only_b = get_weekly_stats(&rows, Some("B"), 0, range.clone());
    assert_eq!(only_b.app_daily_stats, vec![("B".to_string(), vec![p("2024-01-15", 30)])]);
    let none = get_weekly_stats(&rows, Some("Q"), 0, range.clone());
    assert!(none.app_daily_stats.is_empty());

    let month = get_monthly_stats(&rows, None, 2, range.clone());
    assert_eq!(month.month_offset, Some(2));
    assert_eq!(month.week_offset, None);
    assert_eq!(month.month_range, Some(range));
    assert!(month.week_range.is_none());
    assert_eq!(month.daily_totals, daily);
}

#[test]
fn eye_transitions() {
    let inactive = EyeGlobalState { active: false, last_record_time: None };
    let t = plan_eye_transition(&inactive, true, 1000);
    assert_eq!(t.global, EyeGlobalState { active: true, last_record_time: Some(1000) });
    assert!(t.save.is_none());

    let active = EyeGlobalState { active: true, last_record_time: Some(1000) };
    let t = plan_eye_transition(&active, true, 5000);
    assert_eq!(t.save, Some((1000, 5000)));
    assert_eq!(t.global, EyeGlobalState { active: true, last_record_time: Some(5000) });

    let t = plan_eye_transition(&active, false, 7000);
    assert_eq!(t.save, Some((1000, 7000)));
    assert_eq!(t.global, EyeGlobalState { active: false, last_record_time: None });

    let t = plan_eye_transition(&inactive, false, 7000);
    assert!(t.save.is_none());
    assert_eq!(t.global, inactive);

    let lost = EyeGlobalState { active: true, last_record_time: None };
    assert!(plan_eye_transition(&lost, false, 7000).save.is_none());
}

#[test]
fn any_active_device() {
    let on = Some(EyeDeviceState { is_active: true, last_update_time: 1 });
    let off = Some(EyeDeviceState { is_active: false, last_update_time: 1 });
    assert!(any_device_active(&vec![off.clone(), None, on.clone()]));
    assert!(!any_device_active(&vec![off, None]));
    assert!(!any_device_active(&vec![]));
    let d = device_activity(true, 42);
    assert!(d.is_active);
    assert_eq!(d.last_update_time, 42);
}

#[test]
fn segments_split_at_local_hours() {
    let tz = TimezoneHelper::new(0);
    let start = MON_15_JAN_2024 + 10 * HOUR_MS + 45 * 60_000;
    let end = MON_15_JAN_2024 + 12 * HOUR_MS + 15 * 60_000;
    let segs = split_time_segments(start, end, &tz);
    assert_eq!(
        segs,
        vec![
            ("2024-01-15".to_string(), 10, 15 * 60_000),
            ("2024-01-15".to_string(), 11, HOUR_MS),
            ("2024-01-15".to_string(), 12, 15 * 60_000),
        ]
    );
    let total: u64 = segs.iter().map(|s| s.2).sum();
    assert_eq!(total, end - start);
}

#[test]
fn segments_cross_midnight() {
    let tz = TimezoneHelper::new(8);
    // 15:30 UTC is 23:30 at UTC+8.
    let start = MON_15_JAN_2024 + 15 * HOUR_MS + 30 * 60_000;
    let segs = split_time_segments(start, start + HOUR_MS, &tz);
    assert_eq!(
        segs,
        vec![("2024-01-15".to_string(), 23, 30 * 60_000), ("2024-01-16".to_string(), 0, 30 * 60_000)]
    );
    assert!(split_time_segments(start, start, &tz).is_empty());
    assert!(split_time_segments(start + 1, start, &tz).is_empty());
}

#[test]
fn eye_time_adds_to_an_hour() {
    let mut h = vec![0u64; 24];
    add_eye_time(&mut h, 3, 500);
    add_eye_time(&mut h, 3, 250);
    add_eye_time(&mut h, 24, 999);
    assert_eq!(h[3], 750);
    assert_eq!(h.iter().sum::<u64>(), 750);
    h[5] = u64::MAX;
    add_eye_time(&mut h, 5, 1);
    assert_eq!(h[5], u64::MAX);
}

fn eye(date: &str, h: Vec<u64>) -> DailyEyeTime {
    DailyEyeTime { date: date.to_string(), hourly_usage: h }
}

#[test]
fn eye_daily_minutes_round_to_hundredths() {
    let rows = vec![eye("2024-01-15", hours(&[(8, 60_000), (9, 299)])), eye("2024-01-15", hours(&[(8, 30_000), (9, 1)]))];
    let r = get_daily_minutes(&rows, "2024-01-15", 8);
    assert_eq!(r.date, "2024-01-15");
    assert_eq!(r.timezone_offset, 8);
    assert_eq!(r.hourly_stats[8], 150);
    assert_eq!(r.hourly_stats[9], 1);
    assert_eq!(r.total_usage, 151);
    let empty = get_daily_minutes(&vec![], "2024-01-15", 0);
    assert_eq!(empty.total_usage, 0);
    assert_eq!(empty.hourly_stats, vec![0u64; 24]);
}

#[test]
fn eye_range_minutes() {
    let rows = vec![
        eye("2024-01-15", hours(&[(8, 60_000)])),
        eye("2024-01-16", hours(&[(8, 120_000)])),
        eye("2024-01-15", hours(&[(9, 60_000)])),
        eye("2024-01-17", hours(&[])),
    ];
    let range = DateRange { start: "2024-01-15".to_string(), end: "2024-01-21".to_string() };
    let w = get_weekly_minutes(&rows, 0, 8, range.clone());
    assert_eq!(w.daily_totals, vec![p("2024-01-15", 120_000), p("2024-01-16", 120_000), p("2024-01-17", 0)]);
    assert_eq!(w.week_offset, Some(0));
    assert_eq!(w.week_range, Some(range.clone()));
    assert_eq!(w.timezone_offset, 8);
    let m = get_monthly_minutes(&rows, -1, 8, range.clone());
    assert_eq!(m.month_offset, Some(-1));
    assert_eq!(m.daily_totals, w.daily_totals);
}

#[test]
fn app_hours_add_up_to_the_day() {
    let s = process_stats(&day_rows());
    for h in 0..24 {
        let by_apps: u64 = s.app_hourly_stats.iter().map(|(_, v)| v[h]).sum();
        assert_eq!(by_apps, s.hourly_stats[h]);
    }
}

#[test]
fn app_days_add_up_to_the_daily_totals() {
    let rows = vec![
        row("2024-01-15", "A", "a", hours(&[(9, 100)])),
        row("2024-01-16", "B", "b", hours(&[(2, 40)])),
        row("2024-01-15", "B", "b", hours(&[(1, 30)])),
        row("2024-01-16", "A", "a2", hours(&[(3, 7)])),
        row("2024-01-17", "C", "c", hours(&[])),
    ];
    let (daily, per_app) = process_range_stats(&rows);
    for (date, total) in &daily {
        let by_apps: u64 = per_app
            .iter()
            .map(|(_, days)| days.iter().find(|(d, _)| d == date).map(|(_, v)| *v).unwrap_or(0))
            .sum();
        assert_eq!(by_apps, *total);
    }
    assert_eq!(daily, vec![p("2024-01-15", 130), p("2024-01-16", 47)]);
}
