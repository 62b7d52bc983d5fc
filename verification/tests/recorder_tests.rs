use runtime_tracker::models::AppSwitch;
use runtime_tracker::recorder::{plan_usage, record_battery, recent_switches_to_save, MAX_RECENT_SWITCHES};
use runtime_tracker::time::{format_date, TimezoneHelper};
use runtime_tracker::usage::{DistributeStep, Distribution, MAX_HOUR_CENTIMINUTES};

/// 2024-01-15T00:00:00Z.
const MON_15_JAN_2024: u64 = 1705276800000;
const HOUR_MS: u64 = 3_600_000;

fn switch(app: &str, ts: &str, running: bool) -> AppSwitch {
    AppSwitch { app_name: app.to_string(), package_name: None, timestamp: ts.to_string(), running }
}

#[test]
fn battery_record_carries_timestamp() {
    let b = record_battery(50, true, MON_15_JAN_2024);
    assert_eq!(b.level, 50);
    assert!(b.is_charging);
    assert_eq!(b.timestamp.as_deref(), Some("2024-01-15T00:00:00.000Z"));
}

#[test]
fn first_report_adds_a_running_switch() {
    let plan = plan_usage(&vec![], Some("WeChat"), None, Some("com.tencent.mm"), MON_15_JAN_2024);
    assert!(plan.credit.is_none());
    let list = plan.switches.unwrap();
    assert_eq!(list.len(), 1);
    assert_eq!(list[0].app_name, "WeChat");
    assert_eq!(list[0].package_name.as_deref(), Some("com.tencent.mm"));
    assert_eq!(list[0].timestamp, "2024-01-15T00:00:00.000Z");
    assert!(list[0].running);
}

#[test]
fn switching_apps_credits_the_previous_one() {
    let prev = vec![switch("A", "2024-01-15T00:00:00.000Z", true)];
    let plan = plan_usage(&prev, Some("B"), Some(true), None, MON_15_JAN_2024 + 90_000);
    let credit = plan.credit.unwrap();
    assert_eq!(credit.app_name, "A");
    assert_eq!(credit.package_name, "");
    assert_eq!(credit.start_ms, MON_15_JAN_2024);
    assert_eq!(credit.centiminutes, 150);
    let list = plan.switches.unwrap();
    assert_eq!(list.len(), 2);
    assert_eq!(list[0].app_name, "B");
    assert!(list[0].running);
    assert_eq!(list[1], prev[0]);
}

#[test]
fn no_credit_when_previous_app_stopped() {
    let prev = vec![switch("A", "2024-01-15T00:00:00.000Z", false)];
    let plan = plan_usage(&prev, Some("B"), Some(true), None, MON_15_JAN_2024 + 90_000);
    assert!(plan.credit.is_none());
    assert_eq!(plan.switches.unwrap().len(), 2);
}

#[test]
fn no_credit_for_less_than_a_hundredth_of_a_minute() {
    let prev = vec![switch("A", "2024-01-15T00:00:00.000Z", true)];
    let plan = plan_usage(&prev, Some("B"), Some(true), None, MON_15_JAN_2024 + 200);
    assert!(plan.credit.is_none());
}

#[test]
fn missing_app_name_is_unknown() {
    let plan = plan_usage(&vec![], None, None, None, MON_15_JAN_2024);
    let list = plan.switches.unwrap();
    assert_eq!(list[0].app_name, "Unknown");
    assert!(list[0].package_name.is_none());
}

#[test]
fn stopping_marks_standby() {
    let prev = vec![switch("A", "2024-01-15T00:00:00.000Z", true), switch("Z", "2024-01-14T00:00:00.000Z", false)];
    let plan = plan_usage(&prev, None, Some(false), None, MON_15_JAN_2024 + 60_000);
    assert_eq!(plan.credit.unwrap().centiminutes, 100);
    let list = plan.switches.unwrap();
    assert_eq!(list.len(), 3);
    assert_eq!(list[0].app_name, "设备待机");
    assert!(!list[0].running);
    assert!(list[0].package_name.is_none());
    assert_eq!(list[0].timestamp, "2024-01-15T00:01:00.000Z");
    assert_eq!(list[1].app_name, "A");
    assert!(!list[1].running);
    assert_eq!(list[2], prev[1]);
}

#[test]
fn stopping_without_history_changes_nothing() {
    let plan = plan_usage(&vec![], None, Some(false), None, MON_15_JAN_2024);
    assert!(plan.credit.is_none());
    assert!(plan.switches.is_none());
}

#[test]
fn switch_list_keeps_twenty() {
    let prev: Vec<AppSwitch> = (0..25).map(|i| switch(&format!("app{}", i), "2024-01-14T00:00:00.000Z", false)).collect();
    let plan = plan_usage(&prev, Some("new"), Some(true), None, MON_15_JAN_2024);
    let list = plan.switches.unwrap();
    assert_eq!(list.len(), MAX_RECENT_SWITCHES);
    assert_eq!(list[0].app_name, "new");
    assert_eq!(list[19].app_name, "app18");
    let saved = recent_switches_to_save(&prev);
    assert_eq!(saved.len(), 20);
    assert_eq!(saved[19].app_name, "app19");
    assert_eq!(recent_switches_to_save(&prev[..3].to_vec()).len(), 3);
}

/// Runs a distribution to its end, the way the recorder drives it, with one record
/// per local day.
fn run(d: &mut Distribution, start_day: &mut Vec<u64>) -> Vec<(String, Vec<u64>)> {
    let mut others: Vec<(String, Vec<u64>)> = Vec::new();
    loop {
        match d.next_step() {
            DistributeStep::Done => break,
            DistributeStep::StartDay { .. } => {
                d.apply(start_day);
            }
            DistributeStep::OtherDay { date, .. } => {
                let key = format_date(&date);
                let idx = match others.iter().position(|(k, _)| *k == key) {
                    Some(i) => i,
                    None => {
                        others.push((key, vec![0; 24]));
                        others.len() - 1
                    }
                };
                d.apply(&mut others[idx].1);
            }
        }
    }
    others
}

#[test]
fn distribution_splits_at_the_hour() {
    let mut d = Distribution::begin(TimezoneHelper::new(0), MON_15_JAN_2024 + 10 * HOUR_MS + HOUR_MS / 2, 9000);
    assert!(d.position_in_range());
    assert!(!d.is_done_now());
    assert_eq!(d.next_step(), DistributeStep::StartDay { hour: 10 });
    let mut hourly = vec![0u64; 24];
    let others = run(&mut d, &mut hourly);
    assert!(d.is_done_now());
    assert!(others.is_empty());
    assert_eq!(hourly[10], 3000);
    assert_eq!(hourly[11], 6000);
    assert_eq!(hourly.iter().sum::<u64>(), 9000);
    assert_eq!(d.remaining, 0);
    assert!(!d.limit_reached);
}

#[test]
fn distribution_crosses_midnight_into_the_next_record() {
    let mut d = Distribution::begin(TimezoneHelper::new(0), MON_15_JAN_2024 + 23 * HOUR_MS + HOUR_MS / 2, 9000);
    let mut hourly = vec![0u64; 24];
    let others = run(&mut d, &mut hourly);
    assert_eq!(hourly[23], 3000);
    assert_eq!(others.len(), 1);
    assert_eq!(others[0].0, "2024-01-16");
    assert_eq!(others[0].1[0], 6000);
}

#[test]
fn distribution_follows_local_hours() {
    // 02:30 UTC is 10:30 at UTC+8.
    let mut d = Distribution::begin(TimezoneHelper::new(8), MON_15_JAN_2024 + 2 * HOUR_MS + HOUR_MS / 2, 1500);
    let mut hourly = vec![0u64; 24];
    run(&mut d, &mut hourly);
    assert_eq!(hourly[10], 1500);
}

#[test]
fn distribution_never_fills_an_hour_past_sixty_minutes() {
    let mut d = Distribution::begin(TimezoneHelper::new(0), MON_15_JAN_2024 + 10 * HOUR_MS, 3000);
    let mut hourly = vec![0u64; 24];
    hourly[10] = 5000;
    run(&mut d, &mut hourly);
    assert_eq!(hourly[10], MAX_HOUR_CENTIMINUTES);
    assert_eq!(hourly[11], 2000);
}

#[test]
fn distribution_leaves_a_hundredth_unspread() {
    let mut d = Distribution::begin(TimezoneHelper::new(0), MON_15_JAN_2024, 1);
    assert_eq!(d.next_step(), DistributeStep::Done);
    let mut hourly = vec![0u64; 24];
    run(&mut d, &mut hourly);
    assert_eq!(hourly.iter().sum::<u64>(), 0);
}

#[test]
fn distribution_stops_after_thirty_days() {
    // Every hour is already full, so nothing can be added and the time runs out.
    let mut d = Distribution::begin(TimezoneHelper::new(0), MON_15_JAN_2024, 100);
    let mut hourly = vec![MAX_HOUR_CENTIMINUTES; 24];
    let mut steps = 0;
    loop {
        match d.next_step() {
            DistributeStep::Done => break,
            DistributeStep::StartDay { .. } => {
                assert!(!d.apply(&mut hourly));
            }
            DistributeStep::OtherDay { .. } => {
                let mut full = vec![MAX_HOUR_CENTIMINUTES; 24];
                assert!(!d.apply(&mut full));
            }
        }
        steps += 1;
    }
    assert!(d.limit_reached);
    assert_eq!(d.remaining, 100);
    assert_eq!(steps, 30 * 24 + 1);
}

#[test]
fn next_report_credits_from_the_previous_report() {
    let t1 = MON_15_JAN_2024 + 123_456;
    let first = plan_usage(&vec![], Some("Maps"), Some(true), Some("com.maps"), t1);
    let stored = recent_switches_to_save(&first.switches.unwrap());
    let t2 = t1 + 5 * 60_000 + 30_000;
    let second = plan_usage(&stored, Some("Mail"), Some(true), None, t2);
    let credit = second.credit.unwrap();
    assert_eq!(credit.app_name, "Maps");
    assert_eq!(credit.package_name, "com.maps");
    assert_eq!(credit.start_ms, t1);
    assert_eq!(credit.centiminutes, 550);
}
