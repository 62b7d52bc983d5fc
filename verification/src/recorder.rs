//! What a device report changes: the battery record, the list of recent app
//! switches, and the usage time that the previous app is credited with.
use vstd::prelude::*;
use crate::models::{AppSwitch, BatteryInfo, copy_opt_string, copy_switch};
use crate::time::{
    calculate_precise_minutes, centiminutes_between, iso_ms, iso_representable, iso_text,
    parse_iso_to_ms, utc_ms_to_iso,
};

verus! {

/// The most switches kept per device.
pub const MAX_RECENT_SWITCHES: usize = 20;

/// The battery record written for a report at `now_ms`.
pub fn record_battery(level: u8, is_charging: bool, now_ms: u64) -> (res: BatteryInfo)
    requires
        iso_representable(now_ms as int),
    ensures
        res.level == level,
        res.is_charging == is_charging,
        res.timestamp matches Some(t) && t@ == iso_text(now_ms as int),
{
    BatteryInfo { level, is_charging, timestamp: Some(utc_ms_to_iso(now_ms)) }
}

/// Usage time to add to a day's statistics: the app that ran, from when, and for
/// how many hundredths of a minute.
#[derive(Clone, Debug, PartialEq, Eq)]
pub struct UsageCredit {
    pub app_name: String,
    pub package_name: String,
    pub start_ms: u64,
    pub centiminutes: u64,
}

/// What a report of the foreground app leads to: usage time to credit, and the new
/// list of recent switches to store (`None`: the list is left as it is).
#[derive(Clone, Debug, PartialEq, Eq)]
pub struct UsagePlan {
    pub credit: Option<UsageCredit>,
    pub switches: Option<Vec<AppSwitch>>,
}

/// The name recorded when a device reports that nothing runs.
pub open spec fn standby_name() -> Seq<char> {
    "设备待机"@
}

pub open spec fn unknown_app_name() -> Seq<char> {
    "Unknown"@
}

/// The credit owed for the newest switch of `switches` when it is still running:
/// from its timestamp until `now_ms`, if that comes to at least a hundredth of a minute.
pub open spec fn credit_due(switches: Seq<AppSwitch>, now_ms: int) -> bool {
    switches.len() > 0 && switches[0].running && centiminutes_between(
        iso_ms(switches[0].timestamp@) as int,
        now_ms,
    ) > 0
}

/// The new list: `first` followed by the old entries, at most twenty in all.
pub open spec fn recent_after(first: AppSwitch, rest: Seq<AppSwitch>) -> Seq<AppSwitch> {
    (seq![first] + rest).take(if rest.len() + 1 <= 20 { rest.len() + 1int } else { 20int })
}

/// The newest switch marked as no longer running.
pub open spec fn stopped_first(switches: Seq<AppSwitch>) -> Seq<AppSwitch> {
    switches.update(0, AppSwitch { running: false, ..switches[0] })
}

fn credit_for(last: &AppSwitch, now_ms: u64) -> (res: Option<UsageCredit>)
    ensures
        match res {
            Some(c) => last.running
                && c.app_name == last.app_name
                && c.package_name@ == match last.package_name {
                    Some(p) => p@,
                    None => Seq::<char>::empty(),
                }
                && c.start_ms == iso_ms(last.timestamp@)
                && c.centiminutes == centiminutes_between(c.start_ms as int, now_ms as int)
                && c.centiminutes > 0,
            None => !last.running || centiminutes_between(iso_ms(last.timestamp@) as int, now_ms as int) == 0,
        },
{
    if !last.running {
        return None;
    }
    let last_ts = parse_iso_to_ms(last.timestamp.as_str());
    let minutes = calculate_precise_minutes(last_ts, now_ms);
    if minutes == 0 {
        return None;
    }
    let package_name = match &last.package_name {
        Some(p) => p.clone(),
        None => String::new(),
    };
    Some(UsageCredit { app_name: last.app_name.clone(), package_name, start_ms: last_ts, centiminutes: minutes })
}

/// `first` followed by copies of `rest` (the first of them possibly marked stopped),
/// cut to twenty entries.
fn prepend_capped(first: AppSwitch, rest: &Vec<AppSwitch>, stop_first: bool) -> (res: Vec<AppSwitch>)
    requires
        stop_first ==> rest.len() > 0,
    ensures
        res@ == recent_after(first, if stop_first { stopped_first(rest@) } else { rest@ }),
        res.len() <= MAX_RECENT_SWITCHES,
{
    let ghost tail = if stop_first { stopped_first(rest@) } else { rest@ };
    let mut out: Vec<AppSwitch> = Vec::new();
    out.push(first);
    let n: usize = if rest.len() < 19 { rest.len() } else { 19 };
    let mut i: usize = 0;
    while i < n
        invariant
            i <= n <= rest.len(),
            n <= 19,
            tail.len() == rest.len(),
            tail == if stop_first { stopped_first(rest@) } else { rest@ },
            out@ == seq![first] + tail.take(i as int),
        decreases n - i,
    {
        let mut entry = copy_switch(&rest[i]);
        if stop_first && i == 0 {
            entry.running = false;
        }
        out.push(entry);
        i = i + 1;
        assert(out@ =~= seq![first] + tail.take(i as int));
    }
    assert(out@ =~= recent_after(first, tail));
    out
}

/// Decides what a report of the foreground app does, given the device's recent
/// switches (newest first): when the device stops, the running app is credited and
/// a standby entry is added (nothing happens if no switch was recorded yet); when
/// an app runs, the previous app is credited if it was running and the new app is
/// added (as "Unknown" when unnamed).
pub fn plan_usage(
    switches: &Vec<AppSwitch>,
    app_name: Option<&str>,
    running: Option<bool>,
    package_name: Option<&str>,
    now_ms: u64,
) -> (res: UsagePlan)
    requires
        iso_representable(now_ms as int),
    ensures
        res.credit is Some == credit_due(switches@, now_ms as int),
        res.credit matches Some(c) ==> c.app_name == switches@[0].app_name
            && c.package_name@ == match switches@[0].package_name {
                Some(p) => p@,
                None => Seq::<char>::empty(),
            }
            && c.start_ms == iso_ms(switches@[0].timestamp@)
            && c.centiminutes == centiminutes_between(c.start_ms as int, now_ms as int),
        running == Some(false) && switches.len() == 0 ==> res.switches is None,
        running == Some(false) && switches.len() > 0 ==> (res.switches matches Some(v) && v.len() > 0
            && v@[0].app_name@ == standby_name() && v@[0].package_name is None
            && v@[0].timestamp@ == iso_text(now_ms as int) && iso_ms(v@[0].timestamp@) == now_ms && !v@[0].running
            && v@ == recent_after(v@[0], stopped_first(switches@))),
        running != Some(false) ==> (res.switches matches Some(v) && v.len() > 0
            && v@[0].app_name@ == match app_name {
                Some(a) => a@,
                None => unknown_app_name(),
            }
            && (v@[0].package_name is Some) == (package_name is Some)
            && (package_name matches Some(p) ==> v@[0].package_name->0@ == p@)
            && v@[0].timestamp@ == iso_text(now_ms as int) && iso_ms(v@[0].timestamp@) == now_ms && v@[0].running
            && v@ == recent_after(v@[0], switches@)),
        res.switches matches Some(v) ==> v.len() <= MAX_RECENT_SWITCHES,
{
    let now_iso = utc_ms_to_iso(now_ms);
    let credit = if switches.len() > 0 {
        credit_for(&switches[0], now_ms)
    } else {
        None
    };
    if running == Some(false) {
        if switches.len() == 0 {
            return UsagePlan { credit, switches: None };
        }
        let standby = AppSwitch {
            app_name: String::from_str("设备待机"),
            package_name: None,
            timestamp: now_iso,
            running: false,
        };
        let list = prepend_capped(standby, switches, true);
        return UsagePlan { credit, switches: Some(list) };
    }
    let name = match app_name {
        Some(a) => a.to_owned(),
        None => String::from_str("Unknown"),
    };
    let package = match package_name {
        Some(p) => Some(p.to_owned()),
        None => None,
    };
    let entry = AppSwitch { app_name: name, package_name: package, timestamp: now_iso, running: true };
    let list = prepend_capped(entry, switches, false);
    UsagePlan { credit, switches: Some(list) }
}

/// The switches that are stored: the first twenty.
pub fn recent_switches_to_save(switches: &Vec<AppSwitch>) -> (res: Vec<AppSwitch>)
    ensures
        res@ == switches@.take(if switches.len() <= 20 { switches.len() as int } else { 20 }),
        res.len() <= MAX_RECENT_SWITCHES,
{
    let n: usize = if switches.len() <= 20 { switches.len() } else { 20 };
    let mut out: Vec<AppSwitch> = Vec::new();
    let mut i: usize = 0;
    while i < n
        invariant
            i <= n <= switches.len(),
            n <= 20,
            out@ == switches@.take(i as int),
        decreases n - i,
    {
        out.push(copy_switch(&switches[i]));
        i = i + 1;
        assert(out@ =~= switches@.take(i as int));
    }
    out
}

} // verus!
