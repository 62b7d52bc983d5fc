use runtime_tracker::settings::{
    admin_config_view, apply_config_updates, check_account_update, check_config_update, default_offset_hours, get_effective_config, get_env_or,
    is_allowed_config_key, page_config, parse_bool_env, plan_account_update, plan_config_update,
    set_setting, AiConfig, EnvVars,
};
use runtime_tracker::models::AccountUpdateRequest;
use runtime_tracker::text::{parse_i32, parse_u32, str_eq};

fn pairs(items: &[(&str, &str)]) -> Vec<(String, String)> {
    items.iter().map(|(k, v)| (k.to_string(), v.to_string())).collect()
}

fn env(items: &[(&str, &str)]) -> EnvVars {
    EnvVars { vars: pairs(items) }
}

fn lookup<'a>(v: &'a [(String, String)], key: &str) -> Option<&'a str> {
    v.iter().find(|(k, _)| k == key).map(|(_, v)| v.as_str())
}

#[test]
fn parse_bool_env_accepts_true_words() {
    assert!(parse_bool_env("true", false));
    assert!(parse_bool_env(" TRUE ", false));
    assert!(parse_bool_env("1", false));
    assert!(parse_bool_env("Yes", false));
    assert!(parse_bool_env("on", false));
    assert!(!parse_bool_env("no", true));
    assert!(!parse_bool_env("false", true));
    assert!(!parse_bool_env("2", true));
}

#[test]
fn parse_bool_env_blank_means_default() {
    assert!(parse_bool_env("", true));
    assert!(!parse_bool_env("", false));
    assert!(parse_bool_env("   ", true));
    assert!(!parse_bool_env("\t\n", false));
}

#[test]
fn integers_parse_like_str_parse() {
    assert_eq!(parse_i32("42"), Some(42));
    assert_eq!(parse_i32("-7"), Some(-7));
    assert_eq!(parse_i32("+7"), Some(7));
    assert_eq!(parse_i32("2147483647"), Some(i32::MAX));
    assert_eq!(parse_i32("-2147483648"), Some(i32::MIN));
    assert_eq!(parse_i32("2147483648"), None);
    assert_eq!(parse_i32("-"), None);
    assert_eq!(parse_i32(" 1"), None);
    assert_eq!(parse_u32("4294967295"), Some(u32::MAX));
    assert_eq!(parse_u32("-1"), None);
    assert!(str_eq("abc", "abc"));
    assert!(!str_eq("abc", "abd"));
}

#[test]
fn env_or_default() {
    let e = env(&[("A", "x"), ("B", "")]);
    assert_eq!(get_env_or(&e, "A", "d"), "x");
    assert_eq!(get_env_or(&e, "B", "d"), "");
    assert_eq!(get_env_or(&e, "C", "d"), "d");
}

#[test]
fn effective_config_prefers_stored_value() {
    let e = env(&[("AI_MODEL", "env-model"), ("AI_API_KEY", "env-key")]);
    let stored = pairs(&[("AI_MODEL", "kv-model")]);
    assert_eq!(get_effective_config(Some(&stored), &e, "AI_MODEL", "gpt-4"), "kv-model");
    assert_eq!(get_effective_config(Some(&stored), &e, "AI_API_KEY", ""), "env-key");
    assert_eq!(get_effective_config(Some(&stored), &e, "AI_PROMPT", "none"), "none");
    assert_eq!(get_effective_config(None, &e, "AI_MODEL", "gpt-4"), "env-model");
}

#[test]
fn ai_config_defaults() {
    let c = AiConfig::from_env(&env(&[]));
    assert_eq!(c.api_url, "https://api.openai.com/v1/chat/completions");
    assert_eq!(c.api_key, "");
    assert_eq!(c.model, "gpt-4");
    assert_eq!(c.max_tokens, 1000);
    assert_eq!(c.prompt_suffix, "");
    assert!(c.enabled);
    assert!(!c.publish_enabled);
    assert_eq!(c.publish_api_url, "");
    assert_eq!(c.publish_api_key, "");
}

#[test]
fn ai_config_from_env_and_store() {
    let e = env(&[
        ("AI_API_KEY", "key-123"),
        ("AI_MAX_TOKENS", "abc"),
        ("AI_PROMPT", "line one\\nline two"),
        ("PUBLISH_ENABLED", "yes"),
    ]);
    let stored = pairs(&[("AI_SUMMARY_ENABLED", "off"), ("AI_MODEL", "small")]);
    let c = AiConfig::from_env_and_kv(&e, Some(&stored));
    assert_eq!(c.api_key, "key-123");
    assert_eq!(c.max_tokens, 1000);
    assert_eq!(c.prompt_suffix, "line one\nline two");
    assert!(c.publish_enabled);
    assert!(!c.enabled);
    assert_eq!(c.model, "small");
    let stored = pairs(&[("AI_MAX_TOKENS", "2048")]);
    assert_eq!(AiConfig::from_env_and_kv(&e, Some(&stored)).max_tokens, 2048);
}

#[test]
fn page_config_defaults_and_overrides() {
    let (p, tz) = page_config(None, &env(&[]));
    assert!(p.web_device_count && p.web_comment && p.web_ai_summary && p.web_summary);
    assert_eq!(p.giscus_repo, "");
    assert_eq!(p.giscus_mapping, "pathname");
    assert!(p.giscus_reactions_enabled);
    assert!(!p.giscus_emit_metadata);
    assert_eq!(p.giscus_input_position, "bottom");
    assert_eq!(p.giscus_theme, "light");
    assert_eq!(p.giscus_lang, "zh-CN");
    assert_eq!(tz, 8);
    let stored = pairs(&[("WEB_COMMENT", "false"), ("DEFAULT_TIMEZONE_OFFSET", "-3")]);
    let (p, tz) = page_config(Some(&stored), &env(&[("GISCUS_THEME", "dark")]));
    assert!(!p.web_comment);
    assert_eq!(p.giscus_theme, "dark");
    assert_eq!(tz, -3);
}

#[test]
fn default_offset_from_env() {
    assert_eq!(default_offset_hours(None, &env(&[])), 8);
    assert_eq!(default_offset_hours(None, &env(&[("DEFAULT_TIMEZONE_OFFSET", "5")])), 5);
    assert_eq!(default_offset_hours(None, &env(&[("DEFAULT_TIMEZONE_OFFSET", "x")])), 8);
    let stored = pairs(&[("DEFAULT_TIMEZONE_OFFSET", "-7")]);
    assert_eq!(default_offset_hours(Some(&stored), &env(&[("DEFAULT_TIMEZONE_OFFSET", "5")])), -7);
    assert_eq!(default_offset_hours(Some(&pairs(&[])), &env(&[("DEFAULT_TIMEZONE_OFFSET", "5")])), 5);
}

#[test]
fn set_setting_replaces_or_adds() {
    let mut c = pairs(&[("A", "1"), ("B", "2")]);
    set_setting(&mut c, &"A".to_string(), &"9".to_string());
    assert_eq!(lookup(&c, "A"), Some("9"));
    assert_eq!(lookup(&c, "B"), Some("2"));
    set_setting(&mut c, &"C".to_string(), &"3".to_string());
    assert_eq!(lookup(&c, "C"), Some("3"));
    assert_eq!(c.len(), 3);
}

#[test]
fn read_after_update_gives_the_last_value() {
    let mut c = pairs(&[("AI_MODEL", "a")]);
    let updates = pairs(&[("AI_MODEL", "b"), ("AI_PROMPT", "p"), ("AI_MODEL", "c")]);
    apply_config_updates(&mut c, &updates);
    let e = env(&[("AI_MODEL", "env"), ("AI_API_KEY", "k")]);
    assert_eq!(get_effective_config(Some(&c), &e, "AI_MODEL", "gpt-4"), "c");
    assert_eq!(get_effective_config(Some(&c), &e, "AI_PROMPT", ""), "p");
    assert_eq!(get_effective_config(Some(&c), &e, "AI_API_KEY", ""), "k");
}

#[test]
fn allowed_keys() {
    assert!(is_allowed_config_key("AI_MODEL"));
    assert!(is_allowed_config_key("GISCUS_LANG"));
    assert!(!is_allowed_config_key("ADMIN_PASSWD"));
    assert!(!is_allowed_config_key("ai_model"));
}

#[test]
fn config_update_refuses_empty_change() {
    let c = pairs(&[]);
    assert_eq!(plan_config_update(&c, &pairs(&[])), Err("请提供要更新的配置项".to_string()));
}

#[test]
fn config_update_refuses_disallowed_keys() {
    let c = pairs(&[]);
    let updates = pairs(&[("AI_MODEL", "x"), ("ADMIN_USER", "u"), ("SECRET", "s")]);
    assert_eq!(
        plan_config_update(&c, &updates),
        Err("不允许修改的配置项: ADMIN_USER, SECRET，请在 Cloudflare Dashboard 或 wrangler.toml 中修改".to_string())
    );
}

#[test]
fn config_update_applies_allowed_keys() {
    let c = pairs(&[("AI_MODEL", "old"), ("WEB_COMMENT", "true")]);
    let updates = pairs(&[("AI_MODEL", "new"), ("GISCUS_THEME", "dark")]);
    let out = plan_config_update(&c, &updates).unwrap();
    assert_eq!(lookup(&out, "AI_MODEL"), Some("new"));
    assert_eq!(lookup(&out, "GISCUS_THEME"), Some("dark"));
    assert_eq!(lookup(&out, "WEB_COMMENT"), Some("true"));
}

#[test]
fn account_update_needs_a_field() {
    let req = AccountUpdateRequest { username: None, password: None };
    assert_eq!(plan_account_update(&req, &pairs(&[])), Err("请提供要更新的用户名或密码".to_string()));
}

#[test]
fn account_update_sets_fields_and_names_them() {
    let c = pairs(&[("AI_MODEL", "m"), ("ADMIN_USER", "old")]);
    let req = AccountUpdateRequest { username: Some("root".to_string()), password: Some("pw".to_string()) };
    let (out, msg) = plan_account_update(&req, &c).unwrap();
    assert_eq!(lookup(&out, "ADMIN_USER"), Some("root"));
    assert_eq!(lookup(&out, "ADMIN_PASSWD"), Some("pw"));
    assert_eq!(lookup(&out, "AI_MODEL"), Some("m"));
    assert_eq!(msg, "账户信息已更新（用户名、密码）");
    let req = AccountUpdateRequest { username: None, password: Some("pw2".to_string()) };
    let (out, msg) = plan_account_update(&req, &c).unwrap();
    assert_eq!(lookup(&out, "ADMIN_USER"), Some("old"));
    assert_eq!(lookup(&out, "ADMIN_PASSWD"), Some("pw2"));
    assert_eq!(msg, "账户信息已更新（密码）");
    let req = AccountUpdateRequest { username: Some("u".to_string()), password: None };
    assert_eq!(plan_account_update(&req, &c).unwrap().1, "账户信息已更新（用户名）");
}

#[test]
fn admin_view_lists_settings_then_platform() {
    let v = admin_config_view(&env(&[("AI_MODEL", "m")]));
    assert_eq!(v.len(), 24);
    assert_eq!(v[0], ("ADMIN_USER".to_string(), "admin".to_string()));
    assert_eq!(v[1], ("AI_API_URL".to_string(), "未设置".to_string()));
    assert_eq!(v[2], ("AI_MODEL".to_string(), "m".to_string()));
    assert_eq!(v[23], ("PLATFORM".to_string(), "cloudflare-workers".to_string()));
}

#[test]
fn config_update_checked_before_reading_settings() {
    assert_eq!(check_config_update(&pairs(&[])), Err("请提供要更新的配置项".to_string()));
    assert_eq!(
        check_config_update(&pairs(&[("AI_MODEL", "x"), ("WEB_SUMMARY", "true"), ("X", "1")])),
        Err("不允许修改的配置项: X，请在 Cloudflare Dashboard 或 wrangler.toml 中修改".to_string())
    );
    assert_eq!(check_config_update(&pairs(&[("AI_MODEL", "x")])), Ok(()));
}

#[test]
fn account_update_checked_before_reading_settings() {
    let none = AccountUpdateRequest { username: None, password: None };
    assert_eq!(check_account_update(&none), Err("请提供要更新的用户名或密码".to_string()));
    let pw = AccountUpdateRequest { username: None, password: Some("p".to_string()) };
    assert_eq!(check_account_update(&pw), Ok(()));
    let user = AccountUpdateRequest { username: Some("u".to_string()), password: None };
    assert_eq!(check_account_update(&user), Ok(()));
}
