//! The AI summary of a device's day: when one is made, the prompt sent to the
//! model, the record kept of the answer, and the status shown to users.
use vstd::prelude::*;
use crate::access::AI_SUMMARY_TTL_SECONDS;
use crate::models::{AiSummaryRecord, AppSwitch, StatsResult};
use crate::settings::AiConfig;
use crate::text::{decimal, padded, push_decimal, push_padded, push_str, string_of};
use crate::time::{
    civil_from_days, date_text, format_date, in_date_range, iso_representable, iso_text, local_day,
    utc_ms_to_iso, TimezoneHelper,
};

verus! {

broadcast use vstd::seq_lib::group_to_multiset_ensures;

// ==================== when a summary is made ====================

/// Why no summary was made.
#[derive(Clone, Copy, Debug, PartialEq, Eq)]
pub enum SummarySkip {
    Disabled,
    NotConfigured,
    NoData,
}

impl SummarySkip {
    /// The message that reports the skip.
    pub fn message(&self) -> (res: String)
        ensures
            res@ == match self {
                SummarySkip::Disabled => "AI summary is disabled"@,
                SummarySkip::NotConfigured => "AI API key not configured"@,
                SummarySkip::NoData => "No usage data for this day"@,
            },
    {
        match self {
            SummarySkip::Disabled => String::from_str("AI summary is disabled"),
            SummarySkip::NotConfigured => String::from_str("AI API key not configured"),
            SummarySkip::NoData => String::from_str("No usage data for this day"),
        }
    }
}

/// The scheduled run makes summaries only while enabled and with an API key.
pub fn run_summary_for_all_devices(config: &AiConfig) -> (res: bool)
    ensures
        res == (config.enabled && config.api_key@.len() > 0),
{
    config.enabled && !config.api_key.as_str().is_empty()
}

/// The day summarised: the given date as it is, else today.
pub fn summary_target_date(date: Option<&str>, offset_hours: i32, now_ms: u64) -> (res: String)
    requires
        date is None ==> in_date_range(local_day(offset_hours as int, now_ms as int)),
    ensures
        res@ == match date {
            Some(d) => d@,
            None => {
                let ymd = civil_from_days(local_day(offset_hours as int, now_ms as int));
                date_text(ymd.0, ymd.1, ymd.2)
            },
        },
{
    match date {
        Some(d) => d.to_owned(),
        None => {
            let tz = TimezoneHelper::new(offset_hours);
            format_date(&tz.get_today(now_ms))
        },
    }
}

/// A summary is published when publishing is on and has an address.
pub fn should_publish(config: &AiConfig) -> (res: bool)
    ensures
        res == (config.publish_enabled && config.publish_api_url@.len() > 0),
{
    config.publish_enabled && !config.publish_api_url.as_str().is_empty()
}

/// The record kept of a summary.
pub fn summary_record(summary: String, date: String, now_ms: u64, trigger: &str) -> (res: AiSummaryRecord)
    requires
        iso_representable(now_ms as int),
    ensures
        res.summary == summary,
        res.date == date,
        res.timestamp@ == iso_text(now_ms as int),
        res.trigger@ == trigger@,
{
    AiSummaryRecord { summary, date, timestamp: utc_ms_to_iso(now_ms), trigger: trigger.to_owned() }
}

// ==================== the prompt ====================

/// The apps by usage, most first.
pub open spec fn sorted_desc(s: Seq<(String, u64)>) -> bool {
    forall|a: int, b: int| 0 <= a < b < s.len() ==> s[a].1 >= s[b].1
}

/// The apps ordered by usage, most first.
pub fn rank_apps(apps: &Vec<(String, u64)>) -> (res: Vec<(String, u64)>)
    ensures
        res@.to_multiset() == apps@.to_multiset(),
        sorted_desc(res@),
        res.len() == apps.len(),
{
    let mut out: Vec<(String, u64)> = Vec::new();
    let mut i: usize = 0;
    assert(apps@.take(0) =~= Seq::<(String, u64)>::empty());
    while i < apps.len()
        invariant
            i <= apps.len(),
            out@.to_multiset() == apps@.take(i as int).to_multiset(),
            sorted_desc(out@),
            out.len() == i,
        decreases apps.len() - i,
    {
        let x = (apps[i].0.clone(), apps[i].1);
        let mut p: usize = 0;
        while p < out.len() && out[p].1 >= x.1
            invariant
                p <= out.len(),
                forall|q: int| 0 <= q < p ==> out@[q].1 >= x.1,
            decreases out.len() - p,
        {
            p = p + 1;
        }
        let ghost before = out@;
        out.insert(p, x);
        proof {
            assert(apps@.take(i + 1) =~= apps@.take(i as int).push(apps@[i as int]));
            assert(x == apps@[i as int]);
            assert forall|a: int, b: int| 0 <= a < b < out@.len() implies out@[a].1 >= out@[b].1 by {
                if b < p {
                } else if b == p {
                    assert(out@[a] == before[a]);
                } else if a == p {
                    assert(out@[b] == before[b - 1]);
                    if p < before.len() {
                        assert(before[p as int].1 < x.1);
                        assert(before[p as int].1 >= before[b - 1].1);
                    }
                } else if a < p {
                    assert(out@[a] == before[a]);
                    assert(out@[b] == before[b - 1]);
                } else {
                    assert(out@[a] == before[a - 1]);
                    assert(out@[b] == before[b - 1]);
                }
            }
        }
        i = i + 1;
    }
    assert(apps@.take(apps.len() as int) =~= apps@);
    out
}

/// `H小时M分钟` for a number of hundredths of a minute (whole hours, capped as a
/// `u32`, and whole minutes past the hour).
pub open spec fn duration_text(centi: int) -> Seq<char> {
    let h = centi / 6000;
    decimal(if h <= u32::MAX { h as nat } else { u32::MAX as nat }) + "小时"@ + decimal(((centi % 6000) / 100) as nat)
        + "分钟"@
}

/// The share in tenths of a percent, rounded half up, as a float prints it:
/// no decimal point when it is a whole percent.
pub open spec fn percent_text(minutes: int, total: int) -> Seq<char> {
    if total > 0 {
        let tenths = (2 * minutes * 1000 + total) / (2 * total);
        if tenths % 10 == 0 {
            decimal((tenths / 10) as nat)
        } else {
            decimal((tenths / 10) as nat) + seq!['.'] + decimal((tenths % 10) as nat)
        }
    } else {
        seq!['0']
    }
}

pub open spec fn app_line(app: Seq<char>, minutes: int, total: int) -> Seq<char> {
    "- "@ + app + ": "@ + duration_text(minutes) + " ("@ + percent_text(minutes, total) + "%)\n"@
}

/// One line per app.
pub open spec fn app_lines(ranked: Seq<(String, u64)>, total: int) -> Seq<char>
    decreases ranked.len(),
{
    if ranked.len() == 0 {
        seq![]
    } else {
        app_lines(ranked.drop_last(), total) + app_line(ranked.last().0@, ranked.last().1 as int, total)
    }
}

pub open spec fn switch_line(s: AppSwitch) -> Seq<char> {
    "- "@ + s.timestamp@ + " "@ + (if s.running { "打开"@ } else { "关闭"@ }) + " "@ + s.app_name@ + "\n"@
}

/// One line per switch.
pub open spec fn switch_lines(switches: Seq<AppSwitch>) -> Seq<char>
    decreases switches.len(),
{
    if switches.len() == 0 {
        seq![]
    } else {
        switch_lines(switches.drop_last()) + switch_line(switches.last())
    }
}

pub open spec fn min_int(a: int, b: int) -> int {
    if a <= b { a } else { b }
}

/// The prompt for a day, given the apps in the order they are listed.
pub open spec fn prompt_text(
    device_id: Seq<char>,
    date: Seq<char>,
    stats: StatsResult,
    ranked: Seq<(String, u64)>,
    switches: Seq<AppSwitch>,
    suffix: Seq<char>,
) -> Seq<char> {
    "总结以下设备的应用使用情况，控制在300字以内\n\n"@ + "- 设备ID: "@ + device_id + "\n"@ + "- 统计日期: "@ + date
        + "\n\n"@ + "## 总体使用情况\n"@ + "- 总使用时长: "@ + duration_text(stats.total_usage as int) + "\n"@
        + "- 使用应用数量: "@ + decimal(stats.app_stats.len() as nat) + "个\n\n"@ + "## 应用使用占比(TOP 20)\n"@
        + app_lines(ranked.take(min_int(ranked.len() as int, 20)), stats.total_usage as int)
        + "\n## 最近应用切换记录 (最新"@ + decimal(min_int(switches.len() as int, 100) as nat) + "条)\n"@
        + switch_lines(switches.take(min_int(switches.len() as int, 10))) + suffix
        + "注意：控制在300字以内，不要返回md格式，只能换行"@
}

fn push_duration(out: &mut Vec<char>, centi: u64)
    ensures
        final(out)@ == old(out)@ + duration_text(centi as int),
{
    let h = centi / 6000;
    let hours: u64 = if h <= 4294967295 { h } else { 4294967295 };
    push_decimal(out, hours as u128);
    push_str(out, "小时");
    push_decimal(out, ((centi % 6000) / 100) as u128);
    push_str(out, "分钟");
    assert(out@ =~= old(out)@ + duration_text(centi as int));
}

fn push_percent(out: &mut Vec<char>, minutes: u64, total: u64)
    ensures
        final(out)@ == old(out)@ + percent_text(minutes as int, total as int),
{
    if total > 0 {
        let tenths_wide: u128 = (2 * (minutes as u128) * 1000 + total as u128) / (2 * total as u128);
        let rest: u128 = tenths_wide % 10;
        push_decimal(out, tenths_wide / 10);
        if rest != 0 {
            out.push('.');
            push_decimal(out, rest);
        }
        assert(out@ =~= old(out)@ + percent_text(minutes as int, total as int));
    } else {
        out.push('0');
        assert(out@ =~= old(out)@ + percent_text(minutes as int, total as int));
    }
}

/// Writes the prompt for a day, given the apps in the order they are listed.
fn write_prompt(
    device_id: &str,
    date: &str,
    stats: &StatsResult,
    ranked: &Vec<(String, u64)>,
    switches: &Vec<AppSwitch>,
    prompt_suffix: &str,
) -> (res: String)
    ensures
        res@ == prompt_text(device_id@, date@, *stats, ranked@, switches@, prompt_suffix@),
{
    let mut out: Vec<char> = Vec::new();
    push_str(&mut out, "总结以下设备的应用使用情况，控制在300字以内\n\n");
    push_str(&mut out, "- 设备ID: ");
    push_str(&mut out, device_id);
    push_str(&mut out, "\n");
    push_str(&mut out, "- 统计日期: ");
    push_str(&mut out, date);
    push_str(&mut out, "\n\n");
    push_str(&mut out, "## 总体使用情况\n");
    push_str(&mut out, "- 总使用时长: ");
    push_duration(&mut out, stats.total_usage);
    push_str(&mut out, "\n");
    push_str(&mut out, "- 使用应用数量: ");
    push_decimal(&mut out, stats.app_stats.len() as u128);
    push_str(&mut out, "个\n\n");
    push_str(&mut out, "## 应用使用占比(TOP 20)\n");
    let ghost head = out@;
    let top: usize = if ranked.len() < 20 { ranked.len() } else { 20 };
    let mut i: usize = 0;
    assert(ranked@.take(0) =~= Seq::<(String, u64)>::empty());
    while i < top
        invariant
            i <= top <= ranked.len(),
            out@ == head + app_lines(ranked@.take(i as int), stats.total_usage as int),
        decreases top - i,
    {
        let ghost before = out@;
        push_str(&mut out, "- ");
        push_str(&mut out, ranked[i].0.as_str());
        push_str(&mut out, ": ");
        push_duration(&mut out, ranked[i].1);
        push_str(&mut out, " (");
        push_percent(&mut out, ranked[i].1, stats.total_usage);
        push_str(&mut out, "%)\n");
        assert(ranked@.take(i + 1).drop_last() =~= ranked@.take(i as int));
        assert(ranked@.take(i + 1).last() == ranked@[i as int]);
        i = i + 1;
        assert(out@ =~= head + app_lines(ranked@.take(i as int), stats.total_usage as int));
    }
    let ghost mid = out@;
    push_str(&mut out, "\n## 最近应用切换记录 (最新");
    let recent: usize = if switches.len() < 100 { switches.len() } else { 100 };
    push_decimal(&mut out, recent as u128);
    push_str(&mut out, "条)\n");
    let ghost mid2 = out@;
    let shown: usize = if switches.len() < 10 { switches.len() } else { 10 };
    let mut j: usize = 0;
    assert(switches@.take(0) =~= Seq::<AppSwitch>::empty());
    while j < shown
        invariant
            j <= shown <= switches.len(),
            out@ == mid2 + switch_lines(switches@.take(j as int)),
        decreases shown - j,
    {
        let s = &switches[j];
        push_str(&mut out, "- ");
        push_str(&mut out, s.timestamp.as_str());
        push_str(&mut out, " ");
        if s.running {
            push_str(&mut out, "打开");
        } else {
            push_str(&mut out, "关闭");
        }
        push_str(&mut out, " ");
        push_str(&mut out, s.app_name.as_str());
        push_str(&mut out, "\n");
        assert(switches@.take(j + 1).drop_last() =~= switches@.take(j as int));
        assert(switches@.take(j + 1).last() == switches@[j as int]);
        j = j + 1;
        assert(out@ =~= mid2 + switch_lines(switches@.take(j as int)));
    }
    if !prompt_suffix.is_empty() {
        push_str(&mut out, prompt_suffix);
    }
    push_str(&mut out, "注意：控制在300字以内，不要返回md格式，只能换行");
    proof {
        if prompt_suffix@.len() == 0 {
            assert(prompt_suffix@ =~= Seq::<char>::empty());
        }
    }
    assert(out@ =~= prompt_text(device_id@, date@, *stats, ranked@, switches@, prompt_suffix@));
    string_of(&out)
}

/// The prompt for a device's day: its figures, the apps with the most usage (at
/// most twenty, most first) and the newest switches (at most ten).
pub fn build_prompt(
    device_id: &str,
    date: &str,
    stats: &StatsResult,
    switches: &Vec<AppSwitch>,
    prompt_suffix: &str,
) -> (res: String)
    ensures
        exists|ranked: Seq<(String, u64)>| {
            &&& ranked.to_multiset() == stats.app_stats@.to_multiset()
            &&& sorted_desc(ranked)
            &&& res@ == prompt_text(device_id@, date@, *stats, ranked, switches@, prompt_suffix@)
        },
{
    let ranked = rank_apps(&stats.app_stats);
    write_prompt(device_id, date, stats, &ranked, switches, prompt_suffix)
}

/// The text of the model's answer, or a note that it gave none.
pub fn reply_text(content: Option<&str>) -> (res: String)
    ensures
        res@ == match content {
            Some(c) => c@,
            None => "AI 未返回内容"@,
        },
{
    match content {
        Some(c) => c.to_owned(),
        None => String::from_str("AI 未返回内容"),
    }
}

/// The error reported when the model's service answers with a status other than 200.
pub fn ai_failure_message(status: u16, body: &str) -> (res: String)
    ensures
        res@ == "AI API 请求失败: "@ + decimal(status as nat) + " "@ + body@,
{
    let mut out: Vec<char> = Vec::new();
    push_str(&mut out, "AI API 请求失败: ");
    push_decimal(&mut out, status as u128);
    push_str(&mut out, " ");
    push_str(&mut out, body);
    string_of(&out)
}

/// What the model's service answered: a status other than 200 is the failure
/// message with the body; else the answer's text (or the note that there is none).
pub fn ai_reply(status: u16, body: &str, content: Option<&str>) -> (res: Result<String, String>)
    ensures
        status != 200 ==> (res matches Err(m) && m@ == "AI API 请求失败: "@ + decimal(status as nat) + " "@ + body@),
        status == 200 ==> (res matches Ok(t) && t@ == match content {
            Some(c) => c@,
            None => "AI 未返回内容"@,
        }),
{
    if status != 200 {
        Err(ai_failure_message(status, body))
    } else {
        Ok(reply_text(content))
    }
}

// ==================== a summary run ====================

/// Where a summary run stands.
#[derive(Clone, Copy, Debug, PartialEq, Eq, Structural)]
pub enum SummaryPhase {
    AwaitStats,
    AwaitSwitches,
    AwaitAnswer,
    AwaitPublish,
    AwaitStore,
    Over,
}

/// How a summary run ends.
#[derive(Clone, Debug, PartialEq, Eq)]
pub enum SummaryReply {
    /// No summary was made.
    Skipped(SummarySkip),
    /// The summary was made and stored as `record`.
    Done { device_id: String, record: AiSummaryRecord },
}

/// What a summary run asks of its caller next.
#[derive(Clone, Debug, PartialEq, Eq)]
pub enum SummaryAction {
    /// Read the device's statistics of `date`, then call `on_stats`.
    ReadStats { date: String },
    /// Read the device's recent switches, then call `on_switches`.
    ReadSwitches,
    /// Ask the model, then call `on_answer`; a failed call ends the run with its
    /// error, and nothing is stored.
    AskModel { prompt: String },
    /// Send the summary to the publishing service, then call `on_published`
    /// whatever the service answered.
    Publish { date: String, summary: String },
    /// Store `record` under the device's summary key for `ttl_seconds`, then call
    /// `on_stored`.
    Store { record: AiSummaryRecord, ttl_seconds: u64 },
    /// The run is over.
    Finish(SummaryReply),
}

/// The making of one device's summary of one day.
#[derive(Clone, Debug)]
pub struct SummaryRun {
    pub device_id: String,
    pub date: String,
    pub now_ms: u64,
    pub trigger: String,
    pub prompt_suffix: String,
    pub publish: bool,
    pub stats: StatsResult,
    pub summary: String,
    pub phase: SummaryPhase,
}

/// The summary made of a run's answer.
pub open spec fn run_record(run: SummaryRun, r: AiSummaryRecord) -> bool {
    &&& r.summary@ == run.summary@
    &&& r.date@ == run.date@
    &&& r.timestamp@ == iso_text(run.now_ms as int)
    &&& r.trigger@ == run.trigger@
}

/// A run's settings fixed at its start.
pub open spec fn same_run(a: SummaryRun, b: SummaryRun) -> bool {
    &&& a.device_id@ == b.device_id@
    &&& a.date@ == b.date@
    &&& a.now_ms == b.now_ms
    &&& a.trigger@ == b.trigger@
    &&& a.prompt_suffix@ == b.prompt_suffix@
    &&& a.publish == b.publish
}

/// The day a summary is made of: the given date as it is, else today.
pub open spec fn target_date(date: Option<&str>, offset_hours: int, now_ms: int) -> Seq<char> {
    match date {
        Some(d) => d@,
        None => {
            let ymd = civil_from_days(local_day(offset_hours, now_ms));
            date_text(ymd.0, ymd.1, ymd.2)
        },
    }
}

/// Starts a summary of `device_id` for `date` (today where none is given), made
/// with `trigger`: its first step reads the day's statistics.
pub fn generate_daily_summary(
    config: &AiConfig,
    device_id: &str,
    date: Option<&str>,
    offset_hours: i32,
    now_ms: u64,
    trigger: &str,
) -> (res: (SummaryRun, SummaryAction))
    requires
        date is None ==> in_date_range(local_day(offset_hours as int, now_ms as int)),
    ensures
        res.0.device_id@ == device_id@,
        res.0.date@ == target_date(date, offset_hours as int, now_ms as int),
        res.0.now_ms == now_ms,
        res.0.trigger@ == trigger@,
        res.0.prompt_suffix@ == config.prompt_suffix@,
        res.0.publish == (config.publish_enabled && config.publish_api_url@.len() > 0),
        res.0.phase == SummaryPhase::AwaitStats,
        res.1 matches SummaryAction::ReadStats { date: d } && d@ == res.0.date@,
{
    let target = summary_target_date(date, offset_hours, now_ms);
    let run = SummaryRun {
        device_id: device_id.to_owned(),
        date: target.clone(),
        now_ms,
        trigger: trigger.to_owned(),
        prompt_suffix: config.prompt_suffix.clone(),
        publish: should_publish(config),
        stats: StatsResult::empty(),
        summary: String::new(),
        phase: SummaryPhase::AwaitStats,
    };
    (run, SummaryAction::ReadStats { date: target })
}

/// A summary asked for by hand: refused while summaries are disabled or no API key
/// is set; else started with the trigger `manual`.
pub fn trigger_summary(
    config: &AiConfig,
    device_id: &str,
    date: Option<&str>,
    offset_hours: i32,
    now_ms: u64,
) -> (res: Result<(SummaryRun, SummaryAction), SummarySkip>)
    requires
        config.enabled && config.api_key@.len() > 0 && date is None ==> in_date_range(
            local_day(offset_hours as int, now_ms as int),
        ),
    ensures
        !config.enabled ==> res == Err::<(SummaryRun, SummaryAction), SummarySkip>(SummarySkip::Disabled),
        config.enabled && config.api_key@.len() == 0 ==> res == Err::<(SummaryRun, SummaryAction), SummarySkip>(
            SummarySkip::NotConfigured,
        ),
        config.enabled && config.api_key@.len() > 0 ==> (res matches Ok(r) && {
            &&& r.0.device_id@ == device_id@
            &&& r.0.date@ == target_date(date, offset_hours as int, now_ms as int)
            &&& r.0.now_ms == now_ms
            &&& r.0.trigger@ == "manual"@
            &&& r.0.prompt_suffix@ == config.prompt_suffix@
            &&& r.0.publish == (config.publish_enabled && config.publish_api_url@.len() > 0)
            &&& r.0.phase == SummaryPhase::AwaitStats
            &&& r.1 matches SummaryAction::ReadStats { date: d } && d@ == r.0.date@
        }),
{
    if !config.enabled {
        return Err(SummarySkip::Disabled);
    }
    if config.api_key.as_str().is_empty() {
        return Err(SummarySkip::NotConfigured);
    }
    Ok(generate_daily_summary(config, device_id, date, offset_hours, now_ms, "manual"))
}

impl SummaryRun {
    /// The day's statistics: a day without usage ends the run unsummarised; else
    /// the switches are read next.
    pub fn on_stats(&mut self, stats: StatsResult) -> (res: SummaryAction)
        requires
            old(self).phase == SummaryPhase::AwaitStats,
        ensures
            same_run(*old(self), *final(self)),
            stats.total_usage == 0 ==> res == SummaryAction::Finish(SummaryReply::Skipped(SummarySkip::NoData))
                && final(self).phase == SummaryPhase::Over,
            stats.total_usage != 0 ==> res == SummaryAction::ReadSwitches && final(self).phase
                == SummaryPhase::AwaitSwitches && final(self).stats == stats,
    {
        if stats.total_usage == 0 {
            self.phase = SummaryPhase::Over;
            SummaryAction::Finish(SummaryReply::Skipped(SummarySkip::NoData))
        } else {
            self.stats = stats;
            self.phase = SummaryPhase::AwaitSwitches;
            SummaryAction::ReadSwitches
        }
    }

    /// The recent switches: the model is asked with the prompt of the day.
    pub fn on_switches(&mut self, switches: &Vec<AppSwitch>) -> (res: SummaryAction)
        requires
            old(self).phase == SummaryPhase::AwaitSwitches,
        ensures
            same_run(*old(self), *final(self)),
            final(self).stats == old(self).stats,
            final(self).phase == SummaryPhase::AwaitAnswer,
            res matches SummaryAction::AskModel { prompt } && exists|ranked: Seq<(String, u64)>| {
                &&& ranked.to_multiset() == old(self).stats.app_stats@.to_multiset()
                &&& sorted_desc(ranked)
                &&& prompt@ == prompt_text(
                    old(self).device_id@,
                    old(self).date@,
                    old(self).stats,
                    ranked,
                    switches@,
                    old(self).prompt_suffix@,
                )
            },
    {
        let prompt = build_prompt(
            self.device_id.as_str(),
            self.date.as_str(),
            &self.stats,
            switches,
            self.prompt_suffix.as_str(),
        );
        self.phase = SummaryPhase::AwaitAnswer;
        SummaryAction::AskModel { prompt }
    }

    fn record(&self) -> (res: AiSummaryRecord)
        requires
            iso_representable(self.now_ms as int),
        ensures
            run_record(*self, res),
    {
        summary_record(self.summary.clone(), self.date.clone(), self.now_ms, self.trigger.as_str())
    }

    /// The model's answer: it is published first where publishing is set up, then
    /// stored for thirty days.
    pub fn on_answer(&mut self, summary: String) -> (res: SummaryAction)
        requires
            old(self).phase == SummaryPhase::AwaitAnswer,
            iso_representable(old(self).now_ms as int),
        ensures
            same_run(*old(self), *final(self)),
            final(self).summary == summary,
            old(self).publish ==> final(self).phase == SummaryPhase::AwaitPublish && (res matches SummaryAction::Publish {
                date,
                summary: s,
            } && date@ == old(self).date@ && s@ == summary@),
            !old(self).publish ==> final(self).phase == SummaryPhase::AwaitStore && (res matches SummaryAction::Store {
                record,
                ttl_seconds,
            } && run_record(*final(self), record) && ttl_seconds == AI_SUMMARY_TTL_SECONDS),
    {
        self.summary = summary;
        if self.publish {
            self.phase = SummaryPhase::AwaitPublish;
            SummaryAction::Publish { date: self.date.clone(), summary: self.summary.clone() }
        } else {
            self.phase = SummaryPhase::AwaitStore;
            SummaryAction::Store { record: self.record(), ttl_seconds: AI_SUMMARY_TTL_SECONDS }
        }
    }

    /// Publishing is over, whatever its outcome: the summary is stored for thirty days.
    pub fn on_published(&mut self) -> (res: SummaryAction)
        requires
            old(self).phase == SummaryPhase::AwaitPublish,
            iso_representable(old(self).now_ms as int),
        ensures
            same_run(*old(self), *final(self)),
            final(self).summary == old(self).summary,
            final(self).phase == SummaryPhase::AwaitStore,
            res matches SummaryAction::Store { record, ttl_seconds } && run_record(*final(self), record)
                && ttl_seconds == AI_SUMMARY_TTL_SECONDS,
    {
        self.phase = SummaryPhase::AwaitStore;
        SummaryAction::Store { record: self.record(), ttl_seconds: AI_SUMMARY_TTL_SECONDS }
    }

    /// The record is stored: the run ends with it.
    pub fn on_stored(&mut self) -> (res: SummaryAction)
        requires
            old(self).phase == SummaryPhase::AwaitStore,
            iso_representable(old(self).now_ms as int),
        ensures
            same_run(*old(self), *final(self)),
            final(self).phase == SummaryPhase::Over,
            res matches SummaryAction::Finish(SummaryReply::Done { device_id, record }) && device_id@
                == old(self).device_id@ && run_record(*old(self), record),
    {
        self.phase = SummaryPhase::Over;
        SummaryAction::Finish(SummaryReply::Done { device_id: self.device_id.clone(), record: self.record() })
    }
}

/// The scheduled run over the device list: each device in turn, once, in list
/// order, gets a summary of today with the trigger `cron`. The next device does
/// not depend on how the previous summary went, so one failure stops no other.
#[derive(Clone, Debug)]
pub struct ScheduledRun {
    pub devices: Vec<String>,
    pub next: usize,
}

impl ScheduledRun {
    /// The run over `devices` (read only when `run_summary_for_all_devices` allows it).
    pub fn new(devices: Vec<String>) -> (res: Self)
        ensures
            res.devices == devices,
            res.next == 0,
    {
        ScheduledRun { devices, next: 0 }
    }

    /// The summary of the next device, or `None` when every device had its turn.
    pub fn next_device(&mut self, config: &AiConfig, offset_hours: i32, now_ms: u64) -> (res: Option<(SummaryRun, SummaryAction)>)
        requires
            in_date_range(local_day(offset_hours as int, now_ms as int)),
        ensures
            final(self).devices == old(self).devices,
            old(self).next >= old(self).devices.len() ==> res is None && final(self).next == old(self).next,
            old(self).next < old(self).devices.len() ==> final(self).next == old(self).next + 1 && (res matches Some(r) && {
                &&& r.0.device_id@ == old(self).devices@[old(self).next as int]@
                &&& r.0.date@ == target_date(None, offset_hours as int, now_ms as int)
                &&& r.0.now_ms == now_ms
                &&& r.0.trigger@ == "cron"@
                &&& r.0.prompt_suffix@ == config.prompt_suffix@
                &&& r.0.publish == (config.publish_enabled && config.publish_api_url@.len() > 0)
                &&& r.0.phase == SummaryPhase::AwaitStats
                &&& r.1 matches SummaryAction::ReadStats { date: d } && d@ == r.0.date@
            }),
    {
        if self.next >= self.devices.len() {
            return None;
        }
        let started = generate_daily_summary(config, self.devices[self.next].as_str(), None, offset_hours, now_ms, "cron");
        self.next = self.next + 1;
        Some(started)
    }
}

// ==================== status ====================

/// What the status page shows about AI summaries.
#[derive(Clone, Debug, PartialEq, Eq)]
pub struct AiStatus {
    pub enabled: bool,
    pub ai_configured: bool,
    pub publish_enabled: bool,
    pub cron_jobs_count: u32,
    pub schedules: Vec<String>,
    pub model: String,
    pub default_timezone: String,
}

/// Rust's `%` on integers: the remainder takes the sign of the dividend.
pub open spec fn rem_trunc(x: int, d: int) -> int {
    if x >= 0 {
        x % d
    } else {
        -((-x) % d)
    }
}

/// The local time of the scheduled run at UTC hour `hour`, as `HH:00`.
pub open spec fn schedule_text(hour: int, offset_hours: int) -> Seq<char> {
    padded(rem_trunc(hour + offset_hours + 24, 24), 2) + ":00"@
}

/// The scheduled runs (every four hours from 04:00 UTC) in local time.
pub fn generate_schedule_strings(offset_hours: i32) -> (res: Vec<String>)
    requires
        offset_hours <= i32::MAX - 44,
    ensures
        res.len() == 5,
        forall|i: int| 0 <= i < 5 ==> (#[trigger] res@[i])@ == schedule_text(4 * (i + 1), offset_hours as int),
{
    let mut schedules: Vec<String> = Vec::new();
    let mut hour: i32 = 4;
    while hour < 24
        invariant
            4 <= hour <= 24,
            hour % 4 == 0,
            offset_hours <= i32::MAX - 44,
            schedules.len() == (hour / 4 - 1) as nat,
            forall|i: int| 0 <= i < schedules.len() ==> (#[trigger] schedules@[i])@ == schedule_text(
                4 * (i + 1),
                offset_hours as int,
            ),
        decreases 24 - hour,
    {
        let x: i32 = hour + offset_hours + 24;
        let local: i32 = match x.checked_rem(24) {
            Some(r) => r,
            None => 0,
        };
        let mut text: Vec<char> = Vec::new();
        push_padded(&mut text, local as i64, 2);
        push_str(&mut text, ":00");
        schedules.push(string_of(&text));
        hour = hour + 4;
    }
    schedules
}

/// `UTC+8` or `UTC-5`.
pub open spec fn timezone_text(offset_hours: int) -> Seq<char> {
    if offset_hours >= 0 {
        "UTC+"@ + padded(offset_hours, 0)
    } else {
        "UTC"@ + padded(offset_hours, 0)
    }
}

/// The status of AI summaries for a configuration and time-zone offset.
pub fn get_ai_status(config: &AiConfig, offset_hours: i32) -> (res: AiStatus)
    requires
        offset_hours <= i32::MAX - 44,
    ensures
        res.enabled == config.enabled,
        res.ai_configured == (config.api_key@.len() > 0),
        res.publish_enabled == config.publish_enabled,
        res.cron_jobs_count == 1,
        res.schedules.len() == 5,
        forall|i: int| 0 <= i < 5 ==> (#[trigger] res.schedules@[i])@ == schedule_text(4 * (i + 1), offset_hours as int),
        res.model == config.model,
        res.default_timezone@ == timezone_text(offset_hours as int),
{
    let mut tz: Vec<char> = Vec::new();
    if offset_hours >= 0 {
        push_str(&mut tz, "UTC+");
    } else {
        push_str(&mut tz, "UTC");
    }
    push_padded(&mut tz, offset_hours as i64, 0);
    AiStatus {
        enabled: config.enabled,
        ai_configured: !config.api_key.as_str().is_empty(),
        publish_enabled: config.publish_enabled,
        cron_jobs_count: 1,
        schedules: generate_schedule_strings(offset_hours),
        model: config.model.clone(),
        default_timezone: string_of(&tz),
    }
}

} // verus!
