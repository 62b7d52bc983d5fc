use runtime_tracker::models::{AppSwitch, StatsResult};
use runtime_tracker::settings::AiConfig;
use runtime_tracker::access::AI_SUMMARY_TTL_SECONDS;
use runtime_tracker::summary::{
    ai_failure_message, ai_reply, build_prompt, generate_daily_summary, generate_schedule_strings, get_ai_status, rank_apps,
    reply_text, run_summary_for_all_devices, should_publish, summary_record, summary_target_date, trigger_summary,
    ScheduledRun, SummaryAction, SummaryPhase, SummaryReply, SummarySkip,
};

/// 2024-01-20T00:00:00Z.
const SAT_20_JAN_2024: u64 = 1705708800000;

fn config(enabled: bool, key: &str) -> AiConfig {
    AiConfig {
        api_url: "https://example.test/v1".to_string(),
        api_key: key.to_string(),
        model: "gpt-4".to_string(),
        max_tokens: 1000,
        prompt_suffix: String::new(),
        enabled,
        publish_enabled: false,
        publish_api_url: String::new(),
        publish_api_key: String::new(),
    }
}

fn pair(k: &str, v: u64) -> (String, u64) {
    (k.to_string(), v)
}

#[test]
fn skip_messages() {
    assert_eq!(SummarySkip::Disabled.message(), "AI summary is disabled");
    assert_eq!(SummarySkip::NotConfigured.message(), "AI API key not configured");
    assert_eq!(SummarySkip::NoData.message(), "No usage data for this day");
}

#[test]
fn when_a_summary_is_made() {
    let refused = trigger_summary(&config(false, "k"), "phone", None, 8, SAT_20_JAN_2024);
    assert_eq!(refused.unwrap_err(), SummarySkip::Disabled);
    let refused = trigger_summary(&config(true, ""), "phone", None, 8, SAT_20_JAN_2024);
    assert_eq!(refused.unwrap_err(), SummarySkip::NotConfigured);
    let (run, action) = trigger_summary(&config(true, "k"), "phone", None, 8, SAT_20_JAN_2024).unwrap();
    assert_eq!(run.trigger, "manual");
    assert_eq!(run.device_id, "phone");
    assert_eq!(action, SummaryAction::ReadStats { date: "2024-01-20".to_string() });
    assert!(run_summary_for_all_devices(&config(true, "k")));
    assert!(!run_summary_for_all_devices(&config(false, "k")));
    assert!(!run_summary_for_all_devices(&config(true, "")));
}

#[test]
fn no_summary_without_usage() {
    let (mut run, action) = generate_daily_summary(&config(true, "k"), "phone", Some("2024-01-02"), 8, SAT_20_JAN_2024, "cron");
    assert_eq!(action, SummaryAction::ReadStats { date: "2024-01-02".to_string() });
    assert_eq!(run.on_stats(StatsResult::empty()), SummaryAction::Finish(SummaryReply::Skipped(SummarySkip::NoData)));
    assert_eq!(run.phase, SummaryPhase::Over);
}

fn day_stats() -> StatsResult {
    StatsResult { total_usage: 6000, app_stats: vec![pair("A", 6000)], hourly_stats: vec![0; 24], app_hourly_stats: vec![] }
}

#[test]
fn summary_run_without_publishing() {
    let (mut run, _) = generate_daily_summary(&config(true, "k"), "phone", None, 0, SAT_20_JAN_2024, "manual");
    assert_eq!(run.on_stats(day_stats()), SummaryAction::ReadSwitches);
    let prompt = build_prompt("phone", "2024-01-20", &day_stats(), &vec![], "");
    assert_eq!(run.on_switches(&vec![]), SummaryAction::AskModel { prompt });
    let action = run.on_answer("一天".to_string());
    let record = summary_record("一天".to_string(), "2024-01-20".to_string(), SAT_20_JAN_2024, "manual");
    assert_eq!(action, SummaryAction::Store { record: record.clone(), ttl_seconds: AI_SUMMARY_TTL_SECONDS });
    assert_eq!(AI_SUMMARY_TTL_SECONDS, 30 * 24 * 3600);
    assert_eq!(
        run.on_stored(),
        SummaryAction::Finish(SummaryReply::Done { device_id: "phone".to_string(), record })
    );
    assert_eq!(run.phase, SummaryPhase::Over);
}

#[test]
fn summary_run_publishes_before_storing() {
    let mut c = config(true, "k");
    c.publish_enabled = true;
    c.publish_api_url = "https://example.test/publish".to_string();
    let (mut run, _) = generate_daily_summary(&c, "phone", Some("2024-01-19"), 0, SAT_20_JAN_2024, "cron");
    run.on_stats(day_stats());
    run.on_switches(&vec![]);
    assert_eq!(
        run.on_answer("ok".to_string()),
        SummaryAction::Publish { date: "2024-01-19".to_string(), summary: "ok".to_string() }
    );
    match run.on_published() {
        SummaryAction::Store { record, ttl_seconds } => {
            assert_eq!(record.summary, "ok");
            assert_eq!(record.date, "2024-01-19");
            assert_eq!(record.trigger, "cron");
            assert_eq!(ttl_seconds, AI_SUMMARY_TTL_SECONDS);
        }
        other => panic!("unexpected {:?}", other),
    }
}

#[test]
fn scheduled_run_visits_each_device_once_in_order() {
    let c = config(true, "k");
    let mut sched = ScheduledRun::new(vec!["a".to_string(), "b".to_string()]);
    let (first, action) = sched.next_device(&c, 8, SAT_20_JAN_2024).unwrap();
    assert_eq!(first.device_id, "a");
    assert_eq!(first.trigger, "cron");
    assert_eq!(action, SummaryAction::ReadStats { date: "2024-01-20".to_string() });
    let (second, _) = sched.next_device(&c, 8, SAT_20_JAN_2024).unwrap();
    assert_eq!(second.device_id, "b");
    assert!(sched.next_device(&c, 8, SAT_20_JAN_2024).is_none());
    assert!(sched.next_device(&c, 8, SAT_20_JAN_2024).is_none());
}

#[test]
fn publishing_needs_an_address() {
    let mut c = config(true, "k");
    assert!(!should_publish(&c));
    c.publish_enabled = true;
    assert!(!should_publish(&c));
    c.publish_api_url = "https://example.test/publish".to_string();
    assert!(should_publish(&c));
}

#[test]
fn target_date_and_record() {
    assert_eq!(summary_target_date(Some("2024-01-02"), 8, SAT_20_JAN_2024), "2024-01-02");
    assert_eq!(summary_target_date(None, 8, SAT_20_JAN_2024), "2024-01-20");
    assert_eq!(summary_target_date(None, -8, SAT_20_JAN_2024), "2024-01-19");
    let r = summary_record("text".to_string(), "2024-01-20".to_string(), SAT_20_JAN_2024, "manual");
    assert_eq!(r.summary, "text");
    assert_eq!(r.date, "2024-01-20");
    assert_eq!(r.timestamp, "2024-01-20T00:00:00.000Z");
    assert_eq!(r.trigger, "manual");
}

#[test]
fn apps_ranked_by_usage() {
    let apps = vec![pair("a", 5), pair("b", 9), pair("c", 5), pair("d", 1)];
    assert_eq!(rank_apps(&apps), vec![pair("b", 9), pair("a", 5), pair("c", 5), pair("d", 1)]);
    assert!(rank_apps(&vec![]).is_empty());
}

#[test]
fn prompt_of_a_day() {
    let stats = StatsResult {
        total_usage: 9000,
        app_stats: vec![pair("B", 3000), pair("A", 6000)],
        hourly_stats: vec![0; 24],
        app_hourly_stats: vec![],
    };
    let switches = vec![AppSwitch {
        app_name: "A".to_string(),
        package_name: None,
        timestamp: "2024-01-15T00:00:00.000Z".to_string(),
        running: true,
    }];
    let prompt = build_prompt("phone", "2024-01-15", &stats, &switches, "");
    let expected = "总结以下设备的应用使用情况，控制在300字以内\n\n\
- 设备ID: phone\n\
- 统计日期: 2024-01-15\n\n\
## 总体使用情况\n\
- 总使用时长: 1小时30分钟\n\
- 使用应用数量: 2个\n\n\
## 应用使用占比(TOP 20)\n\
- A: 1小时0分钟 (66.7%)\n\
- B: 0小时30分钟 (33.3%)\n\
\n## 最近应用切换记录 (最新1条)\n\
- 2024-01-15T00:00:00.000Z 打开 A\n\
注意：控制在300字以内，不要返回md格式，只能换行";
    assert_eq!(prompt, expected);
}

#[test]
fn prompt_limits_and_suffix() {
    let apps: Vec<(String, u64)> = (0..25).map(|i| pair(&format!("app{:02}", i), 100 + i as u64)).collect();
    let stats = StatsResult { total_usage: 100, app_stats: apps, hourly_stats: vec![0; 24], app_hourly_stats: vec![] };
    let switches: Vec<AppSwitch> = (0..12)
        .map(|i| AppSwitch {
            app_name: format!("s{}", i),
            package_name: None,
            timestamp: "t".to_string(),
            running: false,
        })
        .collect();
    let prompt = build_prompt("d", "2024-01-15", &stats, &switches, "多写一点\n");
    assert_eq!(prompt.matches(" 关闭 ").count(), 10);
    assert!(prompt.contains("(最新12条)"));
    assert!(prompt.contains("- app24: 0小时1分钟 (124%)\n"));
    assert!(!prompt.contains("app04"));
    assert!(prompt.contains("app05"));
    assert!(prompt.ends_with("多写一点\n注意：控制在300字以内，不要返回md格式，只能换行"));
    assert!(prompt.contains("- 使用应用数量: 25个\n"));
}

#[test]
fn percent_rounds_half_up_and_drops_whole_decimals() {
    let stats = StatsResult {
        total_usage: 200,
        app_stats: vec![pair("A", 200), pair("B", 1)],
        hourly_stats: vec![0; 24],
        app_hourly_stats: vec![],
    };
    let prompt = build_prompt("d", "x", &stats, &vec![], "");
    assert!(prompt.contains("- A: 0小时2分钟 (100%)\n"));
    assert!(prompt.contains("- B: 0小时0分钟 (0.5%)\n"));
    let zero = StatsResult { total_usage: 0, app_stats: vec![pair("A", 10)], hourly_stats: vec![0; 24], app_hourly_stats: vec![] };
    assert!(build_prompt("d", "x", &zero, &vec![], "").contains("- A: 0小时0分钟 (0%)\n"));
}

#[test]
fn schedules_in_local_time() {
    assert_eq!(generate_schedule_strings(8), vec!["12:00", "16:00", "20:00", "00:00", "04:00"]);
    assert_eq!(generate_schedule_strings(-5), vec!["23:00", "03:00", "07:00", "11:00", "15:00"]);
    assert_eq!(generate_schedule_strings(0), vec!["04:00", "08:00", "12:00", "16:00", "20:00"]);
}

#[test]
fn ai_status() {
    let s = get_ai_status(&config(true, "k"), 8);
    assert!(s.enabled);
    assert!(s.ai_configured);
    assert!(!s.publish_enabled);
    assert_eq!(s.cron_jobs_count, 1);
    assert_eq!(s.schedules.len(), 5);
    assert_eq!(s.model, "gpt-4");
    assert_eq!(s.default_timezone, "UTC+8");
    let s = get_ai_status(&config(false, ""), -5);
    assert!(!s.enabled);
    assert!(!s.ai_configured);
    assert_eq!(s.default_timezone, "UTC-5");
    assert_eq!(get_ai_status(&config(true, "k"), 0).default_timezone, "UTC+0");
}

#[test]
fn model_reply_and_failure() {
    assert_eq!(reply_text(Some("总结")), "总结");
    assert_eq!(reply_text(Some("")), "");
    assert_eq!(reply_text(None), "AI 未返回内容");
    assert_eq!(ai_failure_message(429, "slow down"), "AI API 请求失败: 429 slow down");
    assert_eq!(ai_failure_message(500, ""), "AI API 请求失败: 500 ");
}

#[test]
fn model_answer_by_status() {
    assert_eq!(ai_reply(200, "{}", Some("今天很充实")), Ok("今天很充实".to_string()));
    assert_eq!(ai_reply(200, "{}", None), Ok("AI 未返回内容".to_string()));
    assert_eq!(ai_reply(401, "bad key", Some("x")), Err("AI API 请求失败: 401 bad key".to_string()));
    assert_eq!(ai_reply(503, "", None), Err("AI API 请求失败: 503 ".to_string()));
}
