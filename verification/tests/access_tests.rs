use runtime_tracker::access::{
    ai_summary_key, auth_token_data, auth_token_key, battery_key, bearer_token, check_login, check_report,
    client_ip, device_info, eye_device_key, generate_random_token, hex_string, is_summary_allowed,
    month_query_range, offset_param, recent_key, register_device, resolve_date_param, secret_matches,
    week_query_range, AppUpdate, ReportPlan,
};
use runtime_tracker::models::{AppSwitch, BatteryInfo, LoginRequest, ReportRequest};
use runtime_tracker::settings::EnvVars;

/// 2024-01-20T00:00:00Z, a Saturday.
const SAT_20_JAN_2024: u64 = 1705708800000;

fn report(secret: Option<&str>, device: Option<&str>) -> ReportRequest {
    ReportRequest {
        secret: secret.map(|s| s.to_string()),
        device: device.map(|s| s.to_string()),
        app_name: None,
        running: None,
        battery_level: None,
        is_charging: None,
        package_name: None,
    }
}

fn plan(body: &ReportRequest) -> ReportPlan {
    check_report(body, "s3").unwrap()
}

#[test]
fn storage_keys() {
    assert_eq!(battery_key("d1"), "battery:d1");
    assert_eq!(recent_key("d1"), "recent:d1");
    assert_eq!(ai_summary_key("d1"), "ai_summary:d1");
    assert_eq!(eye_device_key("d1"), "eye_device:d1");
    assert_eq!(auth_token_key("abc"), "auth_token:abc");
}

#[test]
fn register_device_adds_once() {
    let devices = vec!["a".to_string()];
    let after = register_device(&devices, "b").unwrap();
    assert_eq!(after, vec!["a".to_string(), "b".to_string()]);
    assert!(register_device(&after, "b").is_none());
    assert!(register_device(&after, "a").is_none());
    assert_eq!(register_device(&vec![], "x").unwrap(), vec!["x".to_string()]);
}

#[test]
fn device_info_from_newest_switch() {
    let battery = BatteryInfo { level: 80, is_charging: true, timestamp: Some("t".to_string()) };
    let switches = vec![
        AppSwitch {
            app_name: "Maps".to_string(),
            package_name: Some("com.maps".to_string()),
            timestamp: "2024-01-15T00:00:00.000Z".to_string(),
            running: true,
        },
        AppSwitch { app_name: "Old".to_string(), package_name: None, timestamp: "x".to_string(), running: false },
    ];
    let info = device_info("phone".to_string(), &battery, &switches);
    assert_eq!(info.device, "phone");
    assert_eq!(info.current_app, "Maps");
    assert_eq!(info.current_package_name.as_deref(), Some("com.maps"));
    assert!(info.running);
    assert_eq!(info.running_since, "2024-01-15T00:00:00.000Z");
    assert_eq!(info.battery_level, 80);
    assert!(info.is_charging);
    assert_eq!(info.battery_timestamp.as_deref(), Some("t"));
}

#[test]
fn device_info_without_switches() {
    let battery = BatteryInfo::default();
    assert_eq!(battery.level, 0);
    assert!(!battery.is_charging);
    assert!(battery.timestamp.is_none());
    let info = device_info("phone".to_string(), &battery, &vec![]);
    assert_eq!(info.current_app, "Unknown");
    assert!(info.current_package_name.is_none());
    assert!(!info.running);
    assert_eq!(info.running_since, "1970-01-01T00:00:00.000Z");
}

#[test]
fn report_with_wrong_secret_is_unauthorized() {
    let r = check_report(&report(Some("nope"), Some("d")), "s3").unwrap_err();
    assert_eq!(r.status, 401);
    assert_eq!(r.message, "Invalid secret");
    let r = check_report(&report(None, Some("d")), "s3").unwrap_err();
    assert_eq!(r.status, 401);
}

#[test]
fn report_without_device_is_bad_request() {
    let r = check_report(&report(Some("s3"), None), "s3").unwrap_err();
    assert_eq!(r.status, 400);
    assert_eq!(r.message, "Missing device");
    let r = check_report(&report(Some("s3"), Some("")), "s3").unwrap_err();
    assert_eq!(r.status, 400);
}

#[test]
fn report_battery_is_recorded_when_in_range() {
    let mut body = report(Some("s3"), Some("d"));
    assert_eq!(plan(&body).battery, None);
    assert_eq!(plan(&body).app_update, AppUpdate::Skip);
    assert_eq!(plan(&body).device, "d");
    body.battery_level = Some(55);
    assert_eq!(plan(&body).battery, Some((55, false)));
    body.is_charging = Some(true);
    assert_eq!(plan(&body).battery, Some((55, true)));
    body.battery_level = Some(0);
    assert_eq!(plan(&body).battery, None);
    body.battery_level = Some(101);
    assert_eq!(plan(&body).battery, None);
    body.battery_level = Some(100);
    assert_eq!(plan(&body).battery, Some((100, true)));
}

#[test]
fn report_app_updates() {
    let mut body = report(Some("s3"), Some("d"));
    body.app_name = Some("Maps".to_string());
    assert_eq!(plan(&body).app_update, AppUpdate::Record);
    body.app_name = None;
    body.running = Some(false);
    assert_eq!(plan(&body).app_update, AppUpdate::Record);
    body.running = Some(true);
    match plan(&body).app_update {
        AppUpdate::Reject(r) => {
            assert_eq!(r.status, 400);
            assert_eq!(r.message, "Missing app_name when running is true");
        }
        other => panic!("unexpected {:?}", other),
    }
}

fn login(u: Option<&str>, p: Option<&str>) -> LoginRequest {
    LoginRequest { username: u.map(|s| s.to_string()), password: p.map(|s| s.to_string()) }
}

#[test]
fn login_checks() {
    assert!(check_login(&login(Some("admin"), Some("pw")), "admin", "pw").is_ok());
    let r = check_login(&login(Some("admin"), Some("bad")), "admin", "pw").unwrap_err();
    assert_eq!((r.status, r.message.as_str()), (401, "用户名或密码错误"));
    let r = check_login(&login(Some("root"), Some("pw")), "admin", "pw").unwrap_err();
    assert_eq!(r.status, 401);
    let r = check_login(&login(None, Some("pw")), "admin", "pw").unwrap_err();
    assert_eq!((r.status, r.message.as_str()), (400, "用户名和密码不能为空"));
    let r = check_login(&login(Some("admin"), Some("")), "admin", "pw").unwrap_err();
    assert_eq!(r.status, 400);
}

#[test]
fn token_record_and_header() {
    let d = auth_token_data("admin".to_string(), 0);
    assert_eq!(d.username, "admin");
    assert_eq!(d.role, "admin");
    assert_eq!(d.created_at, "1970-01-01T00:00:00.000Z");
    assert_eq!(bearer_token(Some("Bearer abc123")).as_deref(), Some("abc123"));
    assert_eq!(bearer_token(Some("Bearer ")).as_deref(), Some(""));
    assert!(bearer_token(Some("Basic abc")).is_none());
    assert!(bearer_token(Some("bearer abc")).is_none());
    assert!(bearer_token(None).is_none());
}

#[test]
fn hex_and_random_tokens() {
    assert_eq!(hex_string(&vec![0, 1, 15, 16, 171, 255]), "00010f10abff");
    assert_eq!(hex_string(&vec![]), "");
    let a = generate_random_token();
    let b = generate_random_token();
    assert_eq!(a.len(), 64);
    assert!(a.chars().all(|c| c.is_ascii_hexdigit() && !c.is_ascii_uppercase()));
    assert_ne!(a, b);
}

#[test]
fn summary_device_needs_web_summary() {
    let on = EnvVars { vars: vec![] };
    let off = EnvVars { vars: vec![("WEB_SUMMARY".to_string(), "false".to_string())] };
    assert!(is_summary_allowed("phone", None, &off));
    assert!(is_summary_allowed("summary", None, &on));
    assert!(!is_summary_allowed("summary", None, &off));
    let stored_off = vec![("WEB_SUMMARY".to_string(), "false".to_string())];
    let stored_on = vec![("WEB_SUMMARY".to_string(), "yes".to_string())];
    assert!(!is_summary_allowed("summary", Some(&stored_off), &on));
    assert!(is_summary_allowed("summary", Some(&stored_on), &off));
    assert!(is_summary_allowed("phone", Some(&stored_off), &on));
    assert!(!is_summary_allowed("summary", Some(&vec![]), &off));
}

#[test]
fn date_parameter() {
    assert_eq!(resolve_date_param(Some("2024-01-02"), 8, SAT_20_JAN_2024).unwrap(), "2024-01-02");
    let r = resolve_date_param(Some("2024-1-32"), 8, SAT_20_JAN_2024).unwrap_err();
    assert_eq!(r.status, 400);
    assert_eq!(r.message, "Invalid date format. Please use YYYY-MM-DD format.");
    assert_eq!(resolve_date_param(None, 0, SAT_20_JAN_2024).unwrap(), "2024-01-20");
    assert_eq!(resolve_date_param(None, -1, SAT_20_JAN_2024).unwrap(), "2024-01-19");
}

#[test]
fn offset_parameter() {
    assert_eq!(offset_param(Some("-2")), -2);
    assert_eq!(offset_param(Some("3")), 3);
    assert_eq!(offset_param(Some("x")), 0);
    assert_eq!(offset_param(None), 0);
}

#[test]
fn secret_parameter() {
    assert!(secret_matches(Some("s3"), "s3"));
    assert!(!secret_matches(Some("s4"), "s3"));
    assert!(!secret_matches(None, "s3"));
    assert!(secret_matches(None, ""));
}

#[test]
fn client_address() {
    assert_eq!(client_ip(Some("1.2.3.4"), Some("5.6.7.8")), "1.2.3.4");
    assert_eq!(client_ip(None, Some(" 5.6.7.8 , 9.9.9.9")), "5.6.7.8");
    assert_eq!(client_ip(None, Some("")), "");
    assert_eq!(client_ip(None, None), "unknown");
}

#[test]
fn query_ranges() {
    let w = week_query_range(0, 0, SAT_20_JAN_2024).unwrap();
    assert_eq!((w.start.as_str(), w.end.as_str()), ("2024-01-15", "2024-01-20"));
    let m = month_query_range(0, -1, SAT_20_JAN_2024).unwrap();
    assert_eq!((m.start.as_str(), m.end.as_str()), ("2023-12-01", "2023-12-31"));
    assert!(week_query_range(0, i32::MAX, SAT_20_JAN_2024).is_none());
    assert!(month_query_range(0, i32::MIN, SAT_20_JAN_2024).is_none());
}
