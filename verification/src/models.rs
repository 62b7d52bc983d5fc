//! The records that the tracker stores and returns.
//!
//! Minutes of app usage are counted in hundredths of a minute (two decimals, as the
//! stored figures are rounded); screen time is counted in milliseconds.
use vstd::prelude::*;

verus! {

/// Battery state of a device, as last reported.
#[derive(Clone, Debug, PartialEq, Eq)]
pub struct BatteryInfo {
    pub level: u8,
    pub is_charging: bool,
    pub timestamp: Option<String>,
}

impl Default for BatteryInfo {
    fn default() -> (res: Self)
        ensures
            res.level == 0,
            !res.is_charging,
            res.timestamp is None,
    {
        Self { level: 0, is_charging: false, timestamp: None }
    }
}

/// One entry of a device's recent app switches, newest first.
#[derive(Clone, Debug, PartialEq, Eq)]
pub struct AppSwitch {
    pub app_name: String,
    pub package_name: Option<String>,
    pub timestamp: String,
    pub running: bool,
}

/// Whether a device is in use, for screen time.
#[derive(Clone, Copy, Debug, PartialEq, Eq)]
pub struct EyeDeviceState {
    pub is_active: bool,
    pub last_update_time: u64,
}

/// Whether any device is in use, and since when screen time is being counted.
#[derive(Clone, Copy, Debug, PartialEq, Eq)]
pub struct EyeGlobalState {
    pub active: bool,
    pub last_record_time: Option<u64>,
}

/// The latest AI summary of a device.
#[derive(Clone, Debug, PartialEq, Eq)]
pub struct AiSummaryRecord {
    pub summary: String,
    pub date: String,
    pub timestamp: String,
    pub trigger: String,
}

/// A device's report: its secret, battery and the app in the foreground.
#[derive(Clone, Debug, PartialEq, Eq)]
pub struct ReportRequest {
    pub secret: Option<String>,
    pub device: Option<String>,
    pub app_name: Option<String>,
    pub running: Option<bool>,
    pub battery_level: Option<u8>,
    pub is_charging: Option<bool>,
    pub package_name: Option<String>,
}

#[derive(Clone, Debug, PartialEq, Eq)]
pub struct LoginRequest {
    pub username: Option<String>,
    pub password: Option<String>,
}

#[derive(Clone, Debug, PartialEq, Eq)]
pub struct AccountUpdateRequest {
    pub username: Option<String>,
    pub password: Option<String>,
}

#[derive(Clone, Debug, PartialEq, Eq)]
pub struct AiTriggerRequest {
    pub date: Option<String>,
    pub timezone_offset: Option<i32>,
}

/// A device as the device list shows it.
#[derive(Clone, Debug, PartialEq, Eq)]
pub struct DeviceInfo {
    pub device: String,
    pub current_app: String,
    pub current_package_name: Option<String>,
    pub running: bool,
    pub running_since: String,
    pub battery_level: u8,
    pub is_charging: bool,
    pub battery_timestamp: Option<String>,
}

/// One day of one app on one device: minutes per local hour, in hundredths.
#[derive(Clone, Debug, PartialEq, Eq)]
pub struct DailyStat {
    pub device_id: String,
    pub date: String,
    pub app_name: String,
    pub package_name: String,
    pub hourly_usage: Vec<u64>,
}

/// One day of screen time: milliseconds per local hour.
#[derive(Clone, Debug, PartialEq, Eq)]
pub struct DailyEyeTime {
    pub date: String,
    pub hourly_usage: Vec<u64>,
}

/// A day's usage: total, per app, per hour and per app and hour (hundredths of minutes).
#[derive(Clone, Debug, PartialEq, Eq)]
pub struct StatsResult {
    pub total_usage: u64,
    pub app_stats: Vec<(String, u64)>,
    pub hourly_stats: Vec<u64>,
    pub app_hourly_stats: Vec<(String, Vec<u64>)>,
}

#[derive(Clone, Debug, PartialEq, Eq)]
pub struct DateRange {
    pub start: String,
    pub end: String,
}

/// A week's or a month's usage: per day, and per app and day (hundredths of minutes).
#[derive(Clone, Debug, PartialEq, Eq)]
pub struct RangeStatsResult {
    pub week_offset: Option<i32>,
    pub month_offset: Option<i32>,
    pub week_range: Option<DateRange>,
    pub month_range: Option<DateRange>,
    pub daily_totals: Vec<(String, u64)>,
    pub app_daily_stats: Vec<(String, Vec<(String, u64)>)>,
}

/// A day's screen time: total and per hour, in hundredths of minutes.
#[derive(Clone, Debug, PartialEq, Eq)]
pub struct EyeTimeDailyResult {
    pub date: String,
    pub total_usage: u64,
    pub hourly_stats: Vec<u64>,
    pub timezone_offset: i32,
}

/// A week's or a month's screen time per day, in milliseconds.
#[derive(Clone, Debug, PartialEq, Eq)]
pub struct EyeTimeRangeResult {
    pub week_offset: Option<i32>,
    pub month_offset: Option<i32>,
    pub week_range: Option<DateRange>,
    pub month_range: Option<DateRange>,
    pub daily_totals: Vec<(String, u64)>,
    pub timezone_offset: i32,
}

/// What the web page shows, and how it sets up comments.
#[derive(Clone, Debug, PartialEq, Eq)]
pub struct PageConfig {
    pub web_device_count: bool,
    pub web_comment: bool,
    pub web_ai_summary: bool,
    pub web_summary: bool,
    pub giscus_repo: String,
    pub giscus_repo_id: String,
    pub giscus_category: String,
    pub giscus_category_id: String,
    pub giscus_mapping: String,
    pub giscus_reactions_enabled: bool,
    pub giscus_emit_metadata: bool,
    pub giscus_input_position: String,
    pub giscus_theme: String,
    pub giscus_lang: String,
}

/// A copy of an optional string.
pub fn copy_opt_string(s: &Option<String>) -> (res: Option<String>)
    ensures
        res == *s,
{
    match s {
        Some(v) => Some(v.clone()),
        None => None,
    }
}

/// A copy of a switch record.
pub fn copy_switch(s: &AppSwitch) -> (res: AppSwitch)
    ensures
        res == *s,
{
    AppSwitch {
        app_name: s.app_name.clone(),
        package_name: copy_opt_string(&s.package_name),
        timestamp: s.timestamp.clone(),
        running: s.running,
    }
}

} // verus!
