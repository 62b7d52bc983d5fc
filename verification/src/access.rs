//! Checks on incoming requests and the records they lead to: device reports,
//! admin logins and tokens, query parameters, and the keys under which records
//! are stored.
use vstd::prelude::*;
use crate::models::{AppSwitch, BatteryInfo, DateRange, DeviceInfo, LoginRequest, ReportRequest, copy_opt_string};
use crate::settings::{bool_setting, effective, get_effective_config, opt_vars, parse_bool_env, EnvVars};
use crate::text::{
    chars_of, parse_i32, parse_integer, push_str, slice_chars, split_chars, split_on, starts_with_chars,
    str_eq, string_of, trim, trim_chars,
};
use crate::time::{
    date_text, format_date, get_month_range_checked, get_week_range_checked, in_date_range, iso_text,
    local_day, month_bounds, month_range_defined, parse_date, parsed_date_day, utc_ms_to_iso,
    week_bounds, week_range_defined, civil_from_days, TimezoneHelper,
};

verus! {

// ==================== storage keys ====================

/// How long a battery record is kept: seven days.
pub const BATTERY_TTL_SECONDS: u64 = 604800;

/// How long the recent switches of a device are kept: seven days.
pub const RECENT_TTL_SECONDS: u64 = 604800;

/// How long an AI summary is kept: thirty days.
pub const AI_SUMMARY_TTL_SECONDS: u64 = 2592000;

/// How long screen-time states are kept: one day.
pub const EYE_STATE_TTL_SECONDS: u64 = 86400;

/// How long an admin token is valid: seven days.
pub const AUTH_TOKEN_TTL_SECONDS: u64 = 604800;

fn prefixed_key(prefix: &str, id: &str) -> (res: String)
    ensures
        res@ == prefix@ + id@,
{
    let mut out: Vec<char> = Vec::new();
    push_str(&mut out, prefix);
    push_str(&mut out, id);
    string_of(&out)
}

pub fn battery_key(device_id: &str) -> (res: String)
    ensures
        res@ == "battery:"@ + device_id@,
{
    prefixed_key("battery:", device_id)
}

pub fn recent_key(device_id: &str) -> (res: String)
    ensures
        res@ == "recent:"@ + device_id@,
{
    prefixed_key("recent:", device_id)
}

pub fn ai_summary_key(device_id: &str) -> (res: String)
    ensures
        res@ == "ai_summary:"@ + device_id@,
{
    prefixed_key("ai_summary:", device_id)
}

pub fn eye_device_key(device_id: &str) -> (res: String)
    ensures
        res@ == "eye_device:"@ + device_id@,
{
    prefixed_key("eye_device:", device_id)
}

pub fn auth_token_key(token: &str) -> (res: String)
    ensures
        res@ == "auth_token:"@ + token@,
{
    prefixed_key("auth_token:", token)
}

/// No name occurs twice.
pub open spec fn distinct_names(v: Seq<String>) -> bool {
    forall|i: int, j: int| 0 <= i < v.len() && 0 <= j < v.len() && i != j ==> v[i]@ != v[j]@
}

pub open spec fn names_contain(v: Seq<String>, id: Seq<char>) -> bool {
    exists|i: int| 0 <= i < v.len() && v[i]@ == id
}

/// The device list with `id` added at the end; `None` when it is already listed
/// (the list is then not written).
pub fn register_device(devices: &Vec<String>, id: &str) -> (res: Option<Vec<String>>)
    ensures
        names_contain(devices@, id@) ==> res is None,
        !names_contain(devices@, id@) ==> (res matches Some(v) && v@.len() == devices@.len() + 1
            && v@.take(devices@.len() as int) == devices@ && v@.last()@ == id@),
        res matches Some(v) ==> names_contain(v@, id@),
        res matches Some(v) ==> (distinct_names(devices@) ==> distinct_names(v@)),
{
    let mut i: usize = 0;
    while i < devices.len()
        invariant
            i <= devices.len(),
            forall|j: int| 0 <= j < i ==> devices@[j]@ != id@,
        decreases devices.len() - i,
    {
        if str_eq(devices[i].as_str(), id) {
            return None;
        }
        i = i + 1;
    }
    let mut out: Vec<String> = Vec::new();
    let mut k: usize = 0;
    while k < devices.len()
        invariant
            k <= devices.len(),
            out@ == devices@.take(k as int),
        decreases devices.len() - k,
    {
        out.push(devices[k].clone());
        k = k + 1;
        assert(out@ =~= devices@.take(k as int));
    }
    out.push(id.to_owned());
    assert(out@.take(devices@.len() as int) =~= devices@);
    assert(out@[devices@.len() as int]@ == id@);
    Some(out)
}

/// Registering the same device twice changes nothing the second time, and a
/// registered device is listed.
pub proof fn lemma_register_idempotent(devices: Seq<String>, id: Seq<char>, after: Seq<String>)
    requires
        after.len() == devices.len() + 1,
        after.take(devices.len() as int) == devices,
        after.last()@ == id,
    ensures
        names_contain(after, id),
{
    assert(after[after.len() - 1]@ == id);
}

// ==================== devices ====================

pub open spec fn unknown_app() -> Seq<char> {
    "Unknown"@
}

/// A device as the device list shows it: its newest switch, or an unknown app not
/// running since the epoch when it has none, and its battery.
pub fn device_info(device_id: String, battery: &BatteryInfo, switches: &Vec<AppSwitch>) -> (res: DeviceInfo)
    ensures
        res.device == device_id,
        res.battery_level == battery.level,
        res.is_charging == battery.is_charging,
        res.battery_timestamp == battery.timestamp,
        switches.len() > 0 ==> res.current_app == switches@[0].app_name && res.current_package_name
            == switches@[0].package_name && res.running == switches@[0].running && res.running_since
            == switches@[0].timestamp,
        switches.len() == 0 ==> res.current_app@ == unknown_app() && res.current_package_name is None
            && !res.running && res.running_since@ == iso_text(0),
{
    let (current_app, current_package, running, running_since) = if switches.len() > 0 {
        let last = &switches[0];
        (last.app_name.clone(), copy_opt_string(&last.package_name), last.running, last.timestamp.clone())
    } else {
        (String::from_str("Unknown"), None, false, utc_ms_to_iso(0))
    };
    DeviceInfo {
        device: device_id,
        current_app,
        current_package_name: current_package,
        running,
        running_since,
        battery_level: battery.level,
        is_charging: battery.is_charging,
        battery_timestamp: copy_opt_string(&battery.timestamp),
    }
}

// ==================== device reports ====================

/// A refused request: the HTTP status and the message.
#[derive(Clone, Debug, PartialEq, Eq)]
pub struct Rejection {
    pub status: u16,
    pub message: String,
}

/// What to do with the app part of a report.
#[derive(Clone, Debug, PartialEq, Eq)]
pub enum AppUpdate {
    /// The report names no app and no running state.
    Skip,
    /// The report is refused at this point (after the battery was recorded).
    Reject(Rejection),
    /// Record the app switch.
    Record,
}

/// An accepted report: the device, the battery to record, and the app part.
#[derive(Clone, Debug, PartialEq, Eq)]
pub struct ReportPlan {
    pub device: String,
    pub battery: Option<(u8, bool)>,
    pub app_update: AppUpdate,
}

/// Checks a device report against the shared secret: a wrong or missing secret is
/// refused with 401, a missing or empty device with 400. A battery level from 1 to
/// 100 is recorded (not charging unless said). A report naming an app or a running
/// state records the switch, except that running (or unsaid) without an app name is
/// refused with 400.
pub fn check_report(body: &ReportRequest, secret: &str) -> (res: Result<ReportPlan, Rejection>)
    ensures
        !(body.secret matches Some(s) && s@ == secret@) ==> (res matches Err(r) && r.status == 401
            && r.message@ == "Invalid secret"@),
        (body.secret matches Some(s) && s@ == secret@) && !(body.device matches Some(d) && d@.len() > 0) ==> (
        res matches Err(r) && r.status == 400 && r.message@ == "Missing device"@),
        res is Ok <==> ((body.secret matches Some(s) && s@ == secret@) && (body.device matches Some(d) && d@.len() > 0)),
        res matches Ok(plan) ==> {
            &&& plan.device@ == body.device->0@
            &&& plan.battery == match body.battery_level {
                Some(l) => if 0 < l <= 100 {
                    Some((
                        l,
                        match body.is_charging {
                            Some(c) => c,
                            None => false,
                        },
                    ))
                } else {
                    None
                },
                None => None,
            }
            &&& (body.app_name is None && body.running is None) ==> plan.app_update == AppUpdate::Skip
            &&& (body.app_name is Some || body.running is Some) && body.running != Some(false) && body.app_name is None
                ==> (plan.app_update matches AppUpdate::Reject(r) && r.status == 400 && r.message@
                == "Missing app_name when running is true"@)
            &&& (body.app_name is Some || body.running is Some) && !(body.running != Some(false)
                && body.app_name is None) ==> plan.app_update == AppUpdate::Record
        },
{
    let secret_ok = match &body.secret {
        Some(s) => str_eq(s.as_str(), secret),
        None => false,
    };
    if !secret_ok {
        return Err(Rejection { status: 401, message: String::from_str("Invalid secret") });
    }
    let device = match &body.device {
        Some(d) => {
            if d.as_str().is_empty() {
                return Err(Rejection { status: 400, message: String::from_str("Missing device") });
            }
            d.clone()
        },
        None => return Err(Rejection { status: 400, message: String::from_str("Missing device") }),
    };
    let battery = match body.battery_level {
        Some(level) => {
            if level > 0 && level <= 100 {
                let charging = match body.is_charging {
                    Some(c) => c,
                    None => false,
                };
                Some((level, charging))
            } else {
                None
            }
        },
        None => None,
    };
    let app_update = if body.app_name.is_some() || body.running.is_some() {
        if body.running != Some(false) && body.app_name.is_none() {
            AppUpdate::Reject(
                Rejection { status: 400, message: String::from_str("Missing app_name when running is true") },
            )
        } else {
            AppUpdate::Record
        }
    } else {
        AppUpdate::Skip
    };
    Ok(ReportPlan { device, battery, app_update })
}

// ==================== admin ====================

/// What is stored with an admin token.
#[derive(Clone, Debug, PartialEq, Eq)]
pub struct AuthTokenData {
    pub username: String,
    pub role: String,
    pub created_at: String,
}

/// The message that refuses a login without user name or password.
pub open spec fn credentials_missing() -> Seq<char> {
    "用户名和密码不能为空"@
}

/// The message that refuses wrong credentials.
pub open spec fn credentials_wrong() -> Seq<char> {
    "用户名或密码错误"@
}

/// Checks a login against the admin account: a missing or empty user name or
/// password is refused with 400, wrong credentials with 401.
pub fn check_login(req: &LoginRequest, admin_user: &str, admin_passwd: &str) -> (res: Result<(), Rejection>)
    ensures
        !(req.username matches Some(u) && u@.len() > 0) || !(req.password matches Some(p) && p@.len() > 0) ==> (
        res matches Err(r) && r.status == 400 && r.message@ == credentials_missing()),
        (req.username matches Some(u) && u@.len() > 0) && (req.password matches Some(p) && p@.len() > 0) ==> (
        res is Ok <==> (req.username->0@ == admin_user@ && req.password->0@ == admin_passwd@)),
        (req.username matches Some(u) && u@.len() > 0) && (req.password matches Some(p) && p@.len() > 0) && !(
        req.username->0@ == admin_user@ && req.password->0@ == admin_passwd@) ==> (res matches Err(r) && r.status
            == 401 && r.message@ == credentials_wrong()),
        res matches Err(r) ==> (r.status == 400 && r.message@ == credentials_missing()) || (r.status == 401
            && r.message@ == credentials_wrong()),
{
    let username = match &req.username {
        Some(u) => {
            if u.as_str().is_empty() {
                return Err(Rejection { status: 400, message: String::from_str("用户名和密码不能为空") });
            }
            u
        },
        None => return Err(Rejection { status: 400, message: String::from_str("用户名和密码不能为空") }),
    };
    let password = match &req.password {
        Some(p) => {
            if p.as_str().is_empty() {
                return Err(Rejection { status: 400, message: String::from_str("用户名和密码不能为空") });
            }
            p
        },
        None => return Err(Rejection { status: 400, message: String::from_str("用户名和密码不能为空") }),
    };
    if !str_eq(username.as_str(), admin_user) {
        return Err(Rejection { status: 401, message: String::from_str("用户名或密码错误") });
    }
    if !str_eq(password.as_str(), admin_passwd) {
        return Err(Rejection { status: 401, message: String::from_str("用户名或密码错误") });
    }
    Ok(())
}

/// The record stored with a new admin token.
pub fn auth_token_data(username: String, now_ms: u64) -> (res: AuthTokenData)
    requires
        crate::time::iso_representable(now_ms as int),
    ensures
        res.username == username,
        res.role@ == "admin"@,
        res.created_at@ == iso_text(now_ms as int),
{
    AuthTokenData { username, role: String::from_str("admin"), created_at: utc_ms_to_iso(now_ms) }
}

/// The token of an `Authorization: Bearer <token>` header.
pub fn bearer_token(header: Option<&str>) -> (res: Option<String>)
    ensures
        match header {
            Some(h) => if h@.len() >= 7 && h@.take(7) == "Bearer "@ {
                res matches Some(t) && t@ == h@.skip(7)
            } else {
                res is None
            },
            None => res is None,
        },
{
    match header {
        Some(h) => {
            let cs = chars_of(h);
            let prefix = chars_of("Bearer ");
            if starts_with_chars(&cs, &prefix) {
                proof {
                    reveal_strlit("Bearer ");
                }
                let rest = slice_chars(&cs, 7, cs.len());
                assert(rest@ =~= h@.skip(7));
                Some(string_of(&rest))
            } else {
                proof {
                    reveal_strlit("Bearer ");
                }
                None
            }
        },
        None => None,
    }
}

/// 32 bytes filled from the system's random source (`getrandom::fill`), a failure
/// of which is ignored. Only the length is claimed: the bytes depend on chance, and
/// getrandom promises nothing of them where it fails.
#[verifier::external_body]
fn random_bytes() -> (res: Vec<u8>)
    ensures
        res.len() == 32,
{
    let mut bytes = [0u8; 32];
    let _ = getrandom::fill(&mut bytes);
    bytes.to_vec()
}

pub open spec fn hex_digit(d: int) -> char {
    if d < 10 {
        ((d + ('0' as int)) as char)
    } else {
        ((d - 10 + ('a' as int)) as char)
    }
}

/// Two lower-case hexadecimal digits per byte (`format!("{:02x}", b)` for each).
pub open spec fn hex_of(bytes: Seq<u8>) -> Seq<char>
    decreases bytes.len(),
{
    if bytes.len() == 0 {
        seq![]
    } else {
        hex_of(bytes.drop_last()) + seq![hex_digit(bytes.last() as int / 16), hex_digit(bytes.last() as int % 16)]
    }
}

fn hex_digit_char(d: u8) -> (c: char)
    requires
        d < 16,
    ensures
        c == hex_digit(d as int),
{
    if d < 10 {
        (48u8 + d) as char
    } else {
        (87u8 + d) as char
    }
}

/// The bytes in lower-case hexadecimal.
pub fn hex_string(bytes: &Vec<u8>) -> (res: String)
    ensures
        res@ == hex_of(bytes@),
        res@.len() == 2 * bytes.len(),
{
    let mut out: Vec<char> = Vec::new();
    let mut i: usize = 0;
    assert(bytes@.take(0) =~= Seq::<u8>::empty());
    while i < bytes.len()
        invariant
            i <= bytes.len(),
            out@ == hex_of(bytes@.take(i as int)),
            out@.len() == 2 * i,
        decreases bytes.len() - i,
    {
        let b = bytes[i];
        out.push(hex_digit_char(b / 16));
        out.push(hex_digit_char(b % 16));
        assert(bytes@.take(i + 1).drop_last() =~= bytes@.take(i as int));
        i = i + 1;
        assert(out@ =~= hex_of(bytes@.take(i as int)));
    }
    assert(bytes@.take(bytes.len() as int) =~= bytes@);
    string_of(&out)
}

/// A new admin token: 32 random bytes in hexadecimal.
pub fn generate_random_token() -> (res: String)
    ensures
        exists|bytes: Seq<u8>| bytes.len() == 32 && res@ == hex_of(bytes),
        res@.len() == 64,
{
    let bytes = random_bytes();
    hex_string(&bytes)
}

// ==================== query parameters ====================

/// The device name that stands for all devices together.
pub open spec fn summary_device() -> Seq<char> {
    "summary"@
}

/// Statistics of a device may always be read; those of all devices together only
/// while `WEB_SUMMARY` (the stored setting, else the environment) allows it.
pub fn is_summary_allowed(device_id: &str, overrides: Option<&Vec<(String, String)>>, env: &EnvVars) -> (res: bool)
    ensures
        res == (device_id@ != summary_device() || bool_setting(
            effective(opt_vars(overrides), env.vars@, "WEB_SUMMARY"@, "true"@),
            true,
        )),
{
    if !str_eq(device_id, "summary") {
        return true;
    }
    let web_summary = get_effective_config(overrides, env, "WEB_SUMMARY", "true");
    parse_bool_env(&web_summary, true)
}

/// The message that refuses a malformed date.
pub open spec fn invalid_date_message() -> Seq<char> {
    "Invalid date format. Please use YYYY-MM-DD format."@
}

/// The date a query asks for: the `date` parameter when it is a valid date (refused
/// with 400 otherwise), else today.
pub fn resolve_date_param(date: Option<&str>, offset_hours: i32, now_ms: u64) -> (res: Result<String, Rejection>)
    requires
        date is None ==> in_date_range(local_day(offset_hours as int, now_ms as int)),
    ensures
        match date {
            Some(d) => if parsed_date_day(d@) is Some {
                res matches Ok(s) && s@ == d@
            } else {
                res matches Err(r) && r.status == 400 && r.message@ == invalid_date_message()
            },
            None => res matches Ok(s) && s@ == ({
                let ymd = civil_from_days(local_day(offset_hours as int, now_ms as int));
                date_text(ymd.0, ymd.1, ymd.2)
            }),
        },
{
    match date {
        Some(d) => {
            match parse_date(d) {
                Some(_) => Ok(d.to_owned()),
                None => Err(
                    Rejection {
                        status: 400,
                        message: String::from_str("Invalid date format. Please use YYYY-MM-DD format."),
                    },
                ),
            }
        },
        None => {
            let tz = TimezoneHelper::new(offset_hours);
            let today = tz.get_today(now_ms);
            Ok(format_date(&today))
        },
    }
}

/// A week or month offset parameter: its `i32` value, 0 when absent or malformed.
pub fn offset_param(value: Option<&str>) -> (res: i32)
    ensures
        res == match value {
            Some(v) => match parse_integer(v@, true, i32::MIN as int, i32::MAX as int) {
                Some(x) => x,
                None => 0,
            },
            None => 0,
        },
{
    match value {
        Some(v) => match parse_i32(v) {
            Some(x) => x,
            None => 0,
        },
        None => 0,
    }
}

/// A query parameter, empty when absent.
pub open spec fn param_or_empty(given: Option<&str>) -> Seq<char> {
    match given {
        Some(g) => g@,
        None => Seq::<char>::empty(),
    }
}

/// The `secret` parameter (empty when absent) equals the shared secret.
pub fn secret_matches(given: Option<&str>, secret: &str) -> (res: bool)
    ensures
        res == (param_or_empty(given) == secret@),
{
    let g: &str = match given {
        Some(g) => g,
        None => "",
    };
    proof {
        reveal_strlit("");
        assert(g@ =~= param_or_empty(given));
    }
    str_eq(g, secret)
}

/// The client's address: `CF-Connecting-IP`, else the first entry of
/// `X-Forwarded-For` without surrounding white space, else `unknown`.
pub fn client_ip(cf_connecting_ip: Option<&str>, forwarded_for: Option<&str>) -> (res: String)
    ensures
        res@ == match cf_connecting_ip {
            Some(ip) => ip@,
            None => match forwarded_for {
                Some(f) => trim(split_on(f@, ',')[0]),
                None => "unknown"@,
            },
        },
{
    match cf_connecting_ip {
        Some(ip) => ip.to_owned(),
        None => match forwarded_for {
            Some(f) => {
                let pieces = split_chars(&chars_of(f), ',');
                proof {
                    crate::text::lemma_split_on_nonempty(f@, ',');
                }
                let first = trim_chars(&pieces[0]);
                string_of(&first)
            },
            None => String::from_str("unknown"),
        },
    }
}

/// The first and last dates of the week asked for, as `YYYY-MM-DD`; `None` where the
/// week leaves chrono's dates.
pub fn week_query_range(offset_hours: i32, week_offset: i32, now_ms: u64) -> (res: Option<DateRange>)
    ensures
        res is Some <==> week_range_defined(offset_hours as int, week_offset as int, now_ms as int),
        res matches Some(r) ==> ({
            let b = week_bounds(offset_hours as int, week_offset as int, now_ms as int);
            let s = civil_from_days(b.0);
            let e = civil_from_days(b.1);
            r.start@ == date_text(s.0, s.1, s.2) && r.end@ == date_text(e.0, e.1, e.2)
        }),
{
    match get_week_range_checked(offset_hours, week_offset, now_ms) {
        Some((start, end)) => Some(DateRange { start: format_date(&start), end: format_date(&end) }),
        None => None,
    }
}

/// The first and last dates of the month asked for, as `YYYY-MM-DD`; `None` where
/// the month leaves chrono's dates or its number overflows.
pub fn month_query_range(offset_hours: i32, month_offset: i32, now_ms: u64) -> (res: Option<DateRange>)
    ensures
        res is Some <==> month_range_defined(offset_hours as int, month_offset as int, now_ms as int),
        res matches Some(r) ==> ({
            let b = month_bounds(offset_hours as int, month_offset as int, now_ms as int);
            let s = civil_from_days(b.0);
            let e = civil_from_days(b.1);
            r.start@ == date_text(s.0, s.1, s.2) && r.end@ == date_text(e.0, e.1, e.2)
        }),
{
    match get_month_range_checked(offset_hours, month_offset, now_ms) {
        Some((start, end)) => Some(DateRange { start: format_date(&start), end: format_date(&end) }),
        None => None,
    }
}

} // verus!
