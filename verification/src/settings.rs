//! Settings: variables of the worker environment, overridden at run time by the
//! values stored under `runtime_config`; the page and AI configuration read from
//! them; and the changes that the admin routes make to the stored overrides.
use vstd::prelude::*;
use crate::models::{AccountUpdateRequest, PageConfig};
use crate::text::{
    chars_of, joined, lowered, lower_chars, parse_integer, parse_i32, parse_u32, push_joined, push_str,
    str_eq, string_of, trim, trim_chars, chars_eq,
};

verus! {

/// The variables of the worker environment that the tracker reads, by name.
#[derive(Clone, Debug, PartialEq, Eq)]
pub struct EnvVars {
    pub vars: Vec<(String, String)>,
}

/// The value stored for `key`: the first pair with that name.
pub open spec fn setting_lookup(v: Seq<(String, String)>, key: Seq<char>) -> Option<Seq<char>>
    decreases v.len(),
{
    if v.len() == 0 {
        None
    } else if v[0].0@ == key {
        Some(v[0].1@)
    } else {
        setting_lookup(v.skip(1), key)
    }
}

/// An environment variable, or `default` where it is not set.
pub open spec fn env_or(vars: Seq<(String, String)>, key: Seq<char>, default: Seq<char>) -> Seq<char> {
    match setting_lookup(vars, key) {
        Some(v) => v,
        None => default,
    }
}

/// A setting as the tracker uses it: the stored override where there is one, else
/// the environment variable, else `default`. `None` overrides: they could not be read.
pub open spec fn effective(
    overrides: Option<Seq<(String, String)>>,
    env: Seq<(String, String)>,
    key: Seq<char>,
    default: Seq<char>,
) -> Seq<char> {
    match overrides {
        Some(o) => match setting_lookup(o, key) {
            Some(v) => v,
            None => env_or(env, key, default),
        },
        None => env_or(env, key, default),
    }
}

proof fn lemma_lookup_first(v: Seq<(String, String)>, j: int, key: Seq<char>)
    requires
        0 <= j < v.len(),
        v[j].0@ == key,
        forall|i: int| 0 <= i < j ==> v[i].0@ != key,
    ensures
        setting_lookup(v, key) == Some(v[j].1@),
    decreases j,
{
    if j > 0 {
        assert forall|i: int| 0 <= i < j - 1 implies v.skip(1)[i].0@ != key by {
            assert(v.skip(1)[i] == v[i + 1]);
        }
        lemma_lookup_first(v.skip(1), j - 1, key);
    }
}

proof fn lemma_lookup_absent(v: Seq<(String, String)>, key: Seq<char>)
    requires
        forall|i: int| 0 <= i < v.len() ==> v[i].0@ != key,
    ensures
        setting_lookup(v, key) is None,
    decreases v.len(),
{
    if v.len() > 0 {
        assert forall|i: int| 0 <= i < v.len() - 1 implies v.skip(1)[i].0@ != key by {
            assert(v.skip(1)[i] == v[i + 1]);
        }
        lemma_lookup_absent(v.skip(1), key);
    }
}

proof fn lemma_lookup_update_other(v: Seq<(String, String)>, j: int, p: (String, String), other: Seq<char>)
    requires
        0 <= j < v.len(),
        v[j].0@ == p.0@,
        other != p.0@,
    ensures
        setting_lookup(v.update(j, p), other) == setting_lookup(v, other),
    decreases j,
{
    if j > 0 {
        if v[0].0@ != other {
            assert(v.update(j, p).skip(1) =~= v.skip(1).update(j - 1, p));
            lemma_lookup_update_other(v.skip(1), j - 1, p, other);
        }
    } else {
        assert(v.update(j, p).skip(1) =~= v.skip(1));
    }
}

proof fn lemma_lookup_push(v: Seq<(String, String)>, p: (String, String), key: Seq<char>)
    ensures
        setting_lookup(v.push(p), key) == match setting_lookup(v, key) {
            Some(x) => Some(x),
            None => if p.0@ == key { Some(p.1@) } else { None },
        },
    decreases v.len(),
{
    if v.len() > 0 {
        assert(v.push(p)[0] == v[0]);
        if v[0].0@ != key {
            assert(v.push(p).skip(1) =~= v.skip(1).push(p));
            lemma_lookup_push(v.skip(1), p, key);
        }
    } else {
        assert(v.push(p)[0] == p);
        assert(v.push(p).skip(1) =~= Seq::<(String, String)>::empty());
        assert(setting_lookup(v.push(p).skip(1), key) is None);
        assert(setting_lookup(v, key) is None);
    }
}

/// The position of the first pair named `key`.
fn find_setting(v: &Vec<(String, String)>, key: &str) -> (res: Option<usize>)
    ensures
        match res {
            Some(j) => j < v.len() && setting_lookup(v@, key@) == Some(v@[j as int].1@) && v@[j as int].0@ == key@
                && forall|i: int| 0 <= i < j ==> v@[i].0@ != key@,
            None => setting_lookup(v@, key@) is None,
        },
{
    let mut i: usize = 0;
    while i < v.len()
        invariant
            i <= v.len(),
            forall|k: int| 0 <= k < i ==> v@[k].0@ != key@,
        decreases v.len() - i,
    {
        if str_eq(v[i].0.as_str(), key) {
            proof {
                lemma_lookup_first(v@, i as int, key@);
            }
            return Some(i);
        }
        i = i + 1;
    }
    proof {
        lemma_lookup_absent(v@, key@);
    }
    None
}

/// The environment variable `key`, or `default`.
pub fn get_env_or(env: &EnvVars, key: &str, default: &str) -> (res: String)
    ensures
        res@ == env_or(env.vars@, key@, default@),
{
    match find_setting(&env.vars, key) {
        Some(j) => env.vars[j].1.clone(),
        None => default.to_owned(),
    }
}

/// The setting `key` as the tracker uses it (see `effective`).
pub fn get_effective_config(overrides: Option<&Vec<(String, String)>>, env: &EnvVars, key: &str, default: &str) -> (res: String)
    ensures
        res@ == effective(
            match overrides {
                Some(o) => Some(o@),
                None => None,
            },
            env.vars@,
            key@,
            default@,
        ),
{
    match overrides {
        Some(config) => match find_setting(config, key) {
            Some(j) => config[j].1.clone(),
            None => get_env_or(env, key, default),
        },
        None => get_env_or(env, key, default),
    }
}

// ==================== reading settings ====================

/// What `parse_bool_env` reads: blank means `default`; otherwise `true`, `1`,
/// `yes` or `on`, in any case of its ASCII letters, means true.
pub open spec fn bool_setting(value: Seq<char>, default: bool) -> bool {
    let t = trim(value);
    if t.len() == 0 {
        default
    } else {
        let l = lowered(t);
        l == "true"@ || l == "1"@ || l == "yes"@ || l == "on"@
    }
}

/// Reads a boolean setting.
pub fn parse_bool_env(value: &str, default: bool) -> (res: bool)
    ensures
        res == bool_setting(value@, default),
{
    let trimmed = trim_chars(&chars_of(value));
    if trimmed.len() == 0 {
        return default;
    }
    let l = lower_chars(&trimmed);
    chars_eq(&l, &chars_of("true")) || chars_eq(&l, &chars_of("1")) || chars_eq(&l, &chars_of("yes"))
        || chars_eq(&l, &chars_of("on"))
}

/// An `i32` setting, or `fallback` where it does not parse.
pub open spec fn i32_setting(value: Seq<char>, fallback: int) -> int {
    match parse_integer(value, true, i32::MIN as int, i32::MAX as int) {
        Some(v) => v,
        None => fallback,
    }
}

pub open spec fn opt_vars(overrides: Option<&Vec<(String, String)>>) -> Option<Seq<(String, String)>> {
    match overrides {
        Some(o) => Some(o@),
        None => None,
    }
}

/// The page configuration and the default time-zone offset, as the settings give them.
pub fn page_config(overrides: Option<&Vec<(String, String)>>, env: &EnvVars) -> (res: (PageConfig, i32))
    ensures
        res.0.web_device_count == bool_setting(effective(opt_vars(overrides), env.vars@, "WEB_DEVICE_COUNT"@, "true"@), true),
        res.0.web_comment == bool_setting(effective(opt_vars(overrides), env.vars@, "WEB_COMMENT"@, "true"@), true),
        res.0.web_ai_summary == bool_setting(effective(opt_vars(overrides), env.vars@, "AI_SUMMARY_ENABLED"@, "true"@), true),
        res.0.web_summary == bool_setting(effective(opt_vars(overrides), env.vars@, "WEB_SUMMARY"@, "true"@), true),
        res.0.giscus_repo@ == effective(opt_vars(overrides), env.vars@, "GISCUS_REPO"@, ""@),
        res.0.giscus_repo_id@ == effective(opt_vars(overrides), env.vars@, "GISCUS_REPOID"@, ""@),
        res.0.giscus_category@ == effective(opt_vars(overrides), env.vars@, "GISCUS_CATEGORY"@, ""@),
        res.0.giscus_category_id@ == effective(opt_vars(overrides), env.vars@, "GISCUS_CATEGORYID"@, ""@),
        res.0.giscus_mapping@ == effective(opt_vars(overrides), env.vars@, "GISCUS_MAPPING"@, "pathname"@),
        res.0.giscus_reactions_enabled == bool_setting(
            effective(opt_vars(overrides), env.vars@, "GISCUS_REACTIONSENABLED"@, "true"@),
            true,
        ),
        res.0.giscus_emit_metadata == bool_setting(
            effective(opt_vars(overrides), env.vars@, "GISCUS_EMITMETADATA"@, "false"@),
            false,
        ),
        res.0.giscus_input_position@ == effective(opt_vars(overrides), env.vars@, "GISCUS_INPUTPOSITION"@, "bottom"@),
        res.0.giscus_theme@ == effective(opt_vars(overrides), env.vars@, "GISCUS_THEME"@, "light"@),
        res.0.giscus_lang@ == effective(opt_vars(overrides), env.vars@, "GISCUS_LANG"@, "zh-CN"@),
        res.1 == i32_setting(effective(opt_vars(overrides), env.vars@, "DEFAULT_TIMEZONE_OFFSET"@, "8"@), 8),
{
    let config = PageConfig {
        web_device_count: parse_bool_env(&get_effective_config(overrides, env, "WEB_DEVICE_COUNT", "true"), true),
        web_comment: parse_bool_env(&get_effective_config(overrides, env, "WEB_COMMENT", "true"), true),
        web_ai_summary: parse_bool_env(&get_effective_config(overrides, env, "AI_SUMMARY_ENABLED", "true"), true),
        web_summary: parse_bool_env(&get_effective_config(overrides, env, "WEB_SUMMARY", "true"), true),
        giscus_repo: get_effective_config(overrides, env, "GISCUS_REPO", ""),
        giscus_repo_id: get_effective_config(overrides, env, "GISCUS_REPOID", ""),
        giscus_category: get_effective_config(overrides, env, "GISCUS_CATEGORY", ""),
        giscus_category_id: get_effective_config(overrides, env, "GISCUS_CATEGORYID", ""),
        giscus_mapping: get_effective_config(overrides, env, "GISCUS_MAPPING", "pathname"),
        giscus_reactions_enabled: parse_bool_env(
            &get_effective_config(overrides, env, "GISCUS_REACTIONSENABLED", "true"),
            true,
        ),
        giscus_emit_metadata: parse_bool_env(
            &get_effective_config(overrides, env, "GISCUS_EMITMETADATA", "false"),
            false,
        ),
        giscus_input_position: get_effective_config(overrides, env, "GISCUS_INPUTPOSITION", "bottom"),
        giscus_theme: get_effective_config(overrides, env, "GISCUS_THEME", "light"),
        giscus_lang: get_effective_config(overrides, env, "GISCUS_LANG", "zh-CN"),
    };
    let tz_text = get_effective_config(overrides, env, "DEFAULT_TIMEZONE_OFFSET", "8");
    let tz_offset = match parse_i32(tz_text.as_str()) {
        Some(v) => v,
        None => 8,
    };
    (config, tz_offset)
}

/// The default time-zone offset: the stored setting, else the environment's (8
/// where it does not parse).
pub fn default_offset_hours(overrides: Option<&Vec<(String, String)>>, env: &EnvVars) -> (res: i32)
    ensures
        res == i32_setting(effective(opt_vars(overrides), env.vars@, "DEFAULT_TIMEZONE_OFFSET"@, "8"@), 8),
{
    let text = get_effective_config(overrides, env, "DEFAULT_TIMEZONE_OFFSET", "8");
    match parse_i32(text.as_str()) {
        Some(v) => v,
        None => 8,
    }
}

/// `s` with every backslash followed by `n` turned into a line break.
pub open spec fn unescape_newlines(s: Seq<char>) -> Seq<char>
    decreases s.len(),
{
    if s.len() >= 2 && s[0] == '\\' && s[1] == 'n' {
        seq!['\n'] + unescape_newlines(s.skip(2))
    } else if s.len() >= 1 {
        seq![s[0]] + unescape_newlines(s.skip(1))
    } else {
        seq![]
    }
}

fn unescape_newlines_exec(s: &String) -> (res: String)
    ensures
        res@ == unescape_newlines(s@),
{
    let cs = chars_of(s.as_str());
    let mut out: Vec<char> = Vec::new();
    let mut i: usize = 0;
    assert(cs@.skip(0) =~= cs@);
    while i < cs.len()
        invariant
            i <= cs.len(),
            cs@ == s@,
            out@ + unescape_newlines(cs@.skip(i as int)) == unescape_newlines(cs@),
        decreases cs.len() - i,
    {
        if i + 1 < cs.len() && cs[i] == '\\' && cs[i + 1] == 'n' {
            out.push('\n');
            assert(cs@.skip(i as int).skip(2) =~= cs@.skip(i + 2));
            i = i + 2;
        } else {
            out.push(cs[i]);
            assert(cs@.skip(i as int).skip(1) =~= cs@.skip(i + 1));
            i = i + 1;
        }
    }
    assert(cs@.skip(i as int) =~= Seq::<char>::empty());
    assert(out@ + Seq::<char>::empty() =~= out@);
    string_of(&out)
}

/// How the AI summaries are made and published.
#[derive(Clone, Debug, PartialEq, Eq)]
pub struct AiConfig {
    pub api_url: String,
    pub api_key: String,
    pub model: String,
    pub max_tokens: u32,
    pub prompt_suffix: String,
    pub enabled: bool,
    pub publish_enabled: bool,
    pub publish_api_url: String,
    pub publish_api_key: String,
}

/// The AI configuration that the settings give.
pub open spec fn ai_config_of(o: Option<Seq<(String, String)>>, env: Seq<(String, String)>, c: AiConfig) -> bool {
    &&& c.api_url@ == effective(o, env, "AI_API_URL"@, "https://api.openai.com/v1/chat/completions"@)
    &&& c.api_key@ == effective(o, env, "AI_API_KEY"@, ""@)
    &&& c.model@ == effective(o, env, "AI_MODEL"@, "gpt-4"@)
    &&& c.max_tokens == match parse_integer(effective(o, env, "AI_MAX_TOKENS"@, "1000"@), false, 0, u32::MAX as int) {
        Some(v) => v,
        None => 1000,
    }
    &&& c.prompt_suffix@ == unescape_newlines(effective(o, env, "AI_PROMPT"@, ""@))
    &&& c.enabled == bool_setting(effective(o, env, "AI_SUMMARY_ENABLED"@, "true"@), true)
    &&& c.publish_enabled == bool_setting(effective(o, env, "PUBLISH_ENABLED"@, "false"@), false)
    &&& c.publish_api_url@ == effective(o, env, "PUBLISH_API_URL"@, ""@)
    &&& c.publish_api_key@ == effective(o, env, "PUBLISH_API_KEY"@, ""@)
}

impl AiConfig {
    /// The AI configuration from the environment alone.
    pub fn from_env(env: &EnvVars) -> (res: Self)
        ensures
            ai_config_of(None, env.vars@, res),
    {
        Self::from_env_and_kv(env, None)
    }

    /// The AI configuration from the environment and the stored overrides.
    pub fn from_env_and_kv(env: &EnvVars, overrides: Option<&Vec<(String, String)>>) -> (res: Self)
        ensures
            ai_config_of(opt_vars(overrides), env.vars@, res),
    {
        let api_url = get_effective_config(overrides, env, "AI_API_URL", "https://api.openai.com/v1/chat/completions");
        let api_key = get_effective_config(overrides, env, "AI_API_KEY", "");
        let model = get_effective_config(overrides, env, "AI_MODEL", "gpt-4");
        let max_text = get_effective_config(overrides, env, "AI_MAX_TOKENS", "1000");
        let max_tokens = match parse_u32(max_text.as_str()) {
            Some(v) => v,
            None => 1000,
        };
        let prompt = get_effective_config(overrides, env, "AI_PROMPT", "");
        let prompt_suffix = unescape_newlines_exec(&prompt);
        let enabled = parse_bool_env(&get_effective_config(overrides, env, "AI_SUMMARY_ENABLED", "true"), true);
        let publish_enabled = parse_bool_env(&get_effective_config(overrides, env, "PUBLISH_ENABLED", "false"), false);
        let publish_api_url = get_effective_config(overrides, env, "PUBLISH_API_URL", "");
        let publish_api_key = get_effective_config(overrides, env, "PUBLISH_API_KEY", "");
        AiConfig {
            api_url,
            api_key,
            model,
            max_tokens,
            prompt_suffix,
            enabled,
            publish_enabled,
            publish_api_url,
            publish_api_key,
        }
    }
}

// ==================== changing settings ====================

/// The stored overrides after `updates`, read by key: the last update of a key
/// wins; keys not updated keep their value.
pub open spec fn updated_lookup(
    config: Seq<(String, String)>,
    updates: Seq<(String, String)>,
    key: Seq<char>,
) -> Option<Seq<char>>
    decreases updates.len(),
{
    if updates.len() == 0 {
        setting_lookup(config, key)
    } else if updates.last().0@ == key {
        Some(updates.last().1@)
    } else {
        updated_lookup(config, updates.drop_last(), key)
    }
}

/// Sets `key` to `value`, replacing the value it had.
pub fn set_setting(config: &mut Vec<(String, String)>, key: &String, value: &String)
    ensures
        setting_lookup(final(config)@, key@) == Some(value@),
        forall|k: Seq<char>| k != key@ ==> setting_lookup(final(config)@, k) == setting_lookup(old(config)@, k),
{
    match find_setting(config, key.as_str()) {
        Some(j) => {
            let ghost before = config@;
            let p = (key.clone(), value.clone());
            config.set(j, p);
            proof {
                assert forall|k: Seq<char>| k != key@ implies setting_lookup(config@, k) == setting_lookup(before, k) by {
                    lemma_lookup_update_other(before, j as int, p, k);
                }
                assert forall|i: int| 0 <= i < j implies config@[i].0@ != key@ by {
                    assert(config@[i] == before[i]);
                }
                lemma_lookup_first(config@, j as int, key@);
            }
        },
        None => {
            let ghost before = config@;
            let p = (key.clone(), value.clone());
            config.push(p);
            proof {
                assert forall|k: Seq<char>| true implies setting_lookup(config@, k) == match setting_lookup(before, k) {
                    Some(x) => Some(x),
                    None => if p.0@ == k { Some(p.1@) } else { None },
                } by {
                    lemma_lookup_push(before, p, k);
                }
            }
        },
    }
}

/// Applies `updates` in order.
pub fn apply_config_updates(config: &mut Vec<(String, String)>, updates: &Vec<(String, String)>)
    ensures
        forall|k: Seq<char>| setting_lookup(final(config)@, k) == updated_lookup(old(config)@, updates@, k),
{
    let ghost start = config@;
    let mut i: usize = 0;
    while i < updates.len()
        invariant
            i <= updates.len(),
            forall|k: Seq<char>| setting_lookup(config@, k) == updated_lookup(start, updates@.take(i as int), k),
        decreases updates.len() - i,
    {
        set_setting(config, &updates[i].0, &updates[i].1);
        proof {
            assert(updates@.take(i + 1).drop_last() =~= updates@.take(i as int));
            assert(updates@.take(i + 1).last() == updates@[i as int]);
        }
        i = i + 1;
    }
    assert(updates@.take(updates.len() as int) =~= updates@);
}

/// What the tracker reads after a change of settings: for a key that was updated,
/// the value it was last updated to; for any other key, what it read before.
pub proof fn lemma_read_after_update(
    before: Seq<(String, String)>,
    updates: Seq<(String, String)>,
    after: Seq<(String, String)>,
    env: Seq<(String, String)>,
    key: Seq<char>,
    default: Seq<char>,
)
    requires
        forall|k: Seq<char>| setting_lookup(after, k) == updated_lookup(before, updates, k),
    ensures
        updated_lookup(Seq::empty(), updates, key) matches Some(v) ==> effective(Some(after), env, key, default) == v,
        updated_lookup(Seq::empty(), updates, key) is None ==> effective(Some(after), env, key, default) == effective(
            Some(before),
            env,
            key,
            default,
        ),
{
    lemma_updated_lookup_split(before, updates, key);
}

proof fn lemma_updated_lookup_split(before: Seq<(String, String)>, updates: Seq<(String, String)>, key: Seq<char>)
    ensures
        updated_lookup(before, updates, key) == match updated_lookup(Seq::empty(), updates, key) {
            Some(v) => Some(v),
            None => setting_lookup(before, key),
        },
    decreases updates.len(),
{
    if updates.len() > 0 {
        lemma_updated_lookup_split(before, updates.drop_last(), key);
    }
}

/// The settings that the admin may change at run time.
pub open spec fn allowed_config_keys() -> Seq<Seq<char>> {
    seq![
        "AI_API_URL"@, "AI_API_KEY"@, "AI_MODEL"@, "AI_MAX_TOKENS"@, "AI_PROMPT"@, "PUBLISH_ENABLED"@,
        "PUBLISH_API_URL"@, "PUBLISH_API_KEY"@, "DEFAULT_TIMEZONE_OFFSET"@, "AI_SUMMARY_ENABLED"@,
        "WEB_DEVICE_COUNT"@, "WEB_COMMENT"@, "WEB_SUMMARY"@, "GISCUS_REPO"@, "GISCUS_REPOID"@,
        "GISCUS_CATEGORY"@, "GISCUS_CATEGORYID"@, "GISCUS_MAPPING"@, "GISCUS_REACTIONSENABLED"@,
        "GISCUS_EMITMETADATA"@, "GISCUS_INPUTPOSITION"@, "GISCUS_THEME"@, "GISCUS_LANG"@,
    ]
}

fn allowed_keys_list() -> (res: Vec<&'static str>)
    ensures
        res@.map_values(|k: &str| k@) == allowed_config_keys(),
{
    let mut v: Vec<&'static str> = Vec::new();
    v.push("AI_API_URL");
    v.push("AI_API_KEY");
    v.push("AI_MODEL");
    v.push("AI_MAX_TOKENS");
    v.push("AI_PROMPT");
    v.push("PUBLISH_ENABLED");
    v.push("PUBLISH_API_URL");
    v.push("PUBLISH_API_KEY");
    v.push("DEFAULT_TIMEZONE_OFFSET");
    v.push("AI_SUMMARY_ENABLED");
    v.push("WEB_DEVICE_COUNT");
    v.push("WEB_COMMENT");
    v.push("WEB_SUMMARY");
    v.push("GISCUS_REPO");
    v.push("GISCUS_REPOID");
    v.push("GISCUS_CATEGORY");
    v.push("GISCUS_CATEGORYID");
    v.push("GISCUS_MAPPING");
    v.push("GISCUS_REACTIONSENABLED");
    v.push("GISCUS_EMITMETADATA");
    v.push("GISCUS_INPUTPOSITION");
    v.push("GISCUS_THEME");
    v.push("GISCUS_LANG");
    assert(v@.map_values(|k: &str| k@) =~= allowed_config_keys());
    v
}

/// The key may be changed at run time.
pub fn is_allowed_config_key(key: &str) -> (res: bool)
    ensures
        res == allowed_config_keys().contains(key@),
{
    let keys = allowed_keys_list();
    let ghost kv = keys@.map_values(|k: &str| k@);
    let mut i: usize = 0;
    while i < keys.len()
        invariant
            i <= keys.len(),
            kv == keys@.map_values(|k: &str| k@),
            kv == allowed_config_keys(),
            forall|j: int| 0 <= j < i ==> kv[j] != key@,
        decreases keys.len() - i,
    {
        if str_eq(keys[i], key) {
            assert(kv[i as int] == key@);
            return true;
        }
        i = i + 1;
    }
    false
}

/// Every setting the tracker reads at run time may be changed by the admin: the
/// AI settings, publishing, the default time zone, the page switches and the
/// comment widget.
pub proof fn lemma_runtime_settings_allowed()
    ensures
        allowed_config_keys().contains("AI_API_URL"@),
        allowed_config_keys().contains("AI_API_KEY"@),
        allowed_config_keys().contains("AI_MODEL"@),
        allowed_config_keys().contains("AI_MAX_TOKENS"@),
        allowed_config_keys().contains("AI_PROMPT"@),
        allowed_config_keys().contains("PUBLISH_ENABLED"@),
        allowed_config_keys().contains("PUBLISH_API_URL"@),
        allowed_config_keys().contains("PUBLISH_API_KEY"@),
        allowed_config_keys().contains("DEFAULT_TIMEZONE_OFFSET"@),
        allowed_config_keys().contains("AI_SUMMARY_ENABLED"@),
        allowed_config_keys().contains("WEB_DEVICE_COUNT"@),
        allowed_config_keys().contains("WEB_COMMENT"@),
        allowed_config_keys().contains("WEB_SUMMARY"@),
        allowed_config_keys().contains("GISCUS_REPO"@),
        allowed_config_keys().contains("GISCUS_REPOID"@),
        allowed_config_keys().contains("GISCUS_CATEGORY"@),
        allowed_config_keys().contains("GISCUS_CATEGORYID"@),
        allowed_config_keys().contains("GISCUS_MAPPING"@),
        allowed_config_keys().contains("GISCUS_REACTIONSENABLED"@),
        allowed_config_keys().contains("GISCUS_EMITMETADATA"@),
        allowed_config_keys().contains("GISCUS_INPUTPOSITION"@),
        allowed_config_keys().contains("GISCUS_THEME"@),
        allowed_config_keys().contains("GISCUS_LANG"@),
{
    assert(allowed_config_keys()[0] == "AI_API_URL"@);
    assert(allowed_config_keys()[1] == "AI_API_KEY"@);
    assert(allowed_config_keys()[2] == "AI_MODEL"@);
    assert(allowed_config_keys()[3] == "AI_MAX_TOKENS"@);
    assert(allowed_config_keys()[4] == "AI_PROMPT"@);
    assert(allowed_config_keys()[5] == "PUBLISH_ENABLED"@);
    assert(allowed_config_keys()[6] == "PUBLISH_API_URL"@);
    assert(allowed_config_keys()[7] == "PUBLISH_API_KEY"@);
    assert(allowed_config_keys()[8] == "DEFAULT_TIMEZONE_OFFSET"@);
    assert(allowed_config_keys()[9] == "AI_SUMMARY_ENABLED"@);
    assert(allowed_config_keys()[10] == "WEB_DEVICE_COUNT"@);
    assert(allowed_config_keys()[11] == "WEB_COMMENT"@);
    assert(allowed_config_keys()[12] == "WEB_SUMMARY"@);
    assert(allowed_config_keys()[13] == "GISCUS_REPO"@);
    assert(allowed_config_keys()[14] == "GISCUS_REPOID"@);
    assert(allowed_config_keys()[15] == "GISCUS_CATEGORY"@);
    assert(allowed_config_keys()[16] == "GISCUS_CATEGORYID"@);
    assert(allowed_config_keys()[17] == "GISCUS_MAPPING"@);
    assert(allowed_config_keys()[18] == "GISCUS_REACTIONSENABLED"@);
    assert(allowed_config_keys()[19] == "GISCUS_EMITMETADATA"@);
    assert(allowed_config_keys()[20] == "GISCUS_INPUTPOSITION"@);
    assert(allowed_config_keys()[21] == "GISCUS_THEME"@);
    assert(allowed_config_keys()[22] == "GISCUS_LANG"@);
}

/// No other key may be changed at run time than those settings.
pub proof fn lemma_only_runtime_settings_allowed(k: Seq<char>)
    requires
        allowed_config_keys().contains(k),
    ensures
        k == "AI_API_URL"@
            || k == "AI_API_KEY"@
            || k == "AI_MODEL"@
            || k == "AI_MAX_TOKENS"@
            || k == "AI_PROMPT"@
            || k == "PUBLISH_ENABLED"@
            || k == "PUBLISH_API_URL"@
            || k == "PUBLISH_API_KEY"@
            || k == "DEFAULT_TIMEZONE_OFFSET"@
            || k == "AI_SUMMARY_ENABLED"@
            || k == "WEB_DEVICE_COUNT"@
            || k == "WEB_COMMENT"@
            || k == "WEB_SUMMARY"@
            || k == "GISCUS_REPO"@
            || k == "GISCUS_REPOID"@
            || k == "GISCUS_CATEGORY"@
            || k == "GISCUS_CATEGORYID"@
            || k == "GISCUS_MAPPING"@
            || k == "GISCUS_REACTIONSENABLED"@
            || k == "GISCUS_EMITMETADATA"@
            || k == "GISCUS_INPUTPOSITION"@
            || k == "GISCUS_THEME"@
            || k == "GISCUS_LANG"@,
{
    assert(allowed_config_keys().len() == 23);
    let i = choose|i: int| 0 <= i < allowed_config_keys().len() && allowed_config_keys()[i] == k;
    if i == 0 {
        assert(allowed_config_keys()[0] == "AI_API_URL"@);
    } else if i == 1 {
        assert(allowed_config_keys()[1] == "AI_API_KEY"@);
    } else if i == 2 {
        assert(allowed_config_keys()[2] == "AI_MODEL"@);
    } else if i == 3 {
        assert(allowed_config_keys()[3] == "AI_MAX_TOKENS"@);
    } else if i == 4 {
        assert(allowed_config_keys()[4] == "AI_PROMPT"@);
    } else if i == 5 {
        assert(allowed_config_keys()[5] == "PUBLISH_ENABLED"@);
    } else if i == 6 {
        assert(allowed_config_keys()[6] == "PUBLISH_API_URL"@);
    } else if i == 7 {
        assert(allowed_config_keys()[7] == "PUBLISH_API_KEY"@);
    } else if i == 8 {
        assert(allowed_config_keys()[8] == "DEFAULT_TIMEZONE_OFFSET"@);
    } else if i == 9 {
        assert(allowed_config_keys()[9] == "AI_SUMMARY_ENABLED"@);
    } else if i == 10 {
        assert(allowed_config_keys()[10] == "WEB_DEVICE_COUNT"@);
    } else if i == 11 {
        assert(allowed_config_keys()[11] == "WEB_COMMENT"@);
    } else if i == 12 {
        assert(allowed_config_keys()[12] == "WEB_SUMMARY"@);
    } else if i == 13 {
        assert(allowed_config_keys()[13] == "GISCUS_REPO"@);
    } else if i == 14 {
        assert(allowed_config_keys()[14] == "GISCUS_REPOID"@);
    } else if i == 15 {
        assert(allowed_config_keys()[15] == "GISCUS_CATEGORY"@);
    } else if i == 16 {
        assert(allowed_config_keys()[16] == "GISCUS_CATEGORYID"@);
    } else if i == 17 {
        assert(allowed_config_keys()[17] == "GISCUS_MAPPING"@);
    } else if i == 18 {
        assert(allowed_config_keys()[18] == "GISCUS_REACTIONSENABLED"@);
    } else if i == 19 {
        assert(allowed_config_keys()[19] == "GISCUS_EMITMETADATA"@);
    } else if i == 20 {
        assert(allowed_config_keys()[20] == "GISCUS_INPUTPOSITION"@);
    } else if i == 21 {
        assert(allowed_config_keys()[21] == "GISCUS_THEME"@);
    } else if i == 22 {
        assert(allowed_config_keys()[22] == "GISCUS_LANG"@);
    }
}

/// The admin account itself is not among the settings that may be changed this way.
pub proof fn lemma_account_not_a_setting()
    ensures
        !allowed_config_keys().contains("ADMIN_USER"@),
        !allowed_config_keys().contains("ADMIN_PASSWD"@),
{
    reveal_strlit("ADMIN_USER");
    reveal_strlit("ADMIN_PASSWD");
    reveal_strlit("AI_API_URL");
    reveal_strlit("AI_API_KEY");
    reveal_strlit("AI_MODEL");
    reveal_strlit("AI_MAX_TOKENS");
    reveal_strlit("AI_PROMPT");
    reveal_strlit("PUBLISH_ENABLED");
    reveal_strlit("PUBLISH_API_URL");
    reveal_strlit("PUBLISH_API_KEY");
    reveal_strlit("DEFAULT_TIMEZONE_OFFSET");
    reveal_strlit("AI_SUMMARY_ENABLED");
    reveal_strlit("WEB_DEVICE_COUNT");
    reveal_strlit("WEB_COMMENT");
    reveal_strlit("WEB_SUMMARY");
    reveal_strlit("GISCUS_REPO");
    reveal_strlit("GISCUS_REPOID");
    reveal_strlit("GISCUS_CATEGORY");
    reveal_strlit("GISCUS_CATEGORYID");
    reveal_strlit("GISCUS_MAPPING");
    reveal_strlit("GISCUS_REACTIONSENABLED");
    reveal_strlit("GISCUS_EMITMETADATA");
    reveal_strlit("GISCUS_INPUTPOSITION");
    reveal_strlit("GISCUS_THEME");
    reveal_strlit("GISCUS_LANG");
    assert(allowed_config_keys().len() == 23);
    assert forall|i: int| 0 <= i < allowed_config_keys().len() implies allowed_config_keys()[i] != "ADMIN_USER"@
        && allowed_config_keys()[i] != "ADMIN_PASSWD"@ by {
        if i == 0 {
            assert(allowed_config_keys()[0] == "AI_API_URL"@);
            assert("AI_API_URL"@[1] != "ADMIN_USER"@[1]);
            assert("AI_API_URL"@.len() != "ADMIN_PASSWD"@.len());
        } else if i == 1 {
            assert(allowed_config_keys()[1] == "AI_API_KEY"@);
            assert("AI_API_KEY"@[1] != "ADMIN_USER"@[1]);
            assert("AI_API_KEY"@.len() != "ADMIN_PASSWD"@.len());
        } else if i == 2 {
            assert(allowed_config_keys()[2] == "AI_MODEL"@);
            assert("AI_MODEL"@.len() != "ADMIN_USER"@.len());
            assert("AI_MODEL"@.len() != "ADMIN_PASSWD"@.len());
        } else if i == 3 {
            assert(allowed_config_keys()[3] == "AI_MAX_TOKENS"@);
            assert("AI_MAX_TOKENS"@.len() != "ADMIN_USER"@.len());
            assert("AI_MAX_TOKENS"@.len() != "ADMIN_PASSWD"@.len());
        } else if i == 4 {
            assert(allowed_config_keys()[4] == "AI_PROMPT"@);
            assert("AI_PROMPT"@.len() != "ADMIN_USER"@.len());
            assert("AI_PROMPT"@.len() != "ADMIN_PASSWD"@.len());
        } else if i == 5 {
            assert(allowed_config_keys()[5] == "PUBLISH_ENABLED"@);
            assert("PUBLISH_ENABLED"@.len() != "ADMIN_USER"@.len());
            assert("PUBLISH_ENABLED"@.len() != "ADMIN_PASSWD"@.len());
        } else if i == 6 {
            assert(allowed_config_keys()[6] == "PUBLISH_API_URL"@);
            assert("PUBLISH_API_URL"@.len() != "ADMIN_USER"@.len());
            assert("PUBLISH_API_URL"@.len() != "ADMIN_PASSWD"@.len());
        } else if i == 7 {
            assert(allowed_config_keys()[7] == "PUBLISH_API_KEY"@);
            assert("PUBLISH_API_KEY"@.len() != "ADMIN_USER"@.len());
            assert("PUBLISH_API_KEY"@.len() != "ADMIN_PASSWD"@.len());
        } else if i == 8 {
            assert(allowed_config_keys()[8] == "DEFAULT_TIMEZONE_OFFSET"@);
            assert("DEFAULT_TIMEZONE_OFFSET"@.len() != "ADMIN_USER"@.len());
            assert("DEFAULT_TIMEZONE_OFFSET"@.len() != "ADMIN_PASSWD"@.len());
        } else if i == 9 {
            assert(allowed_config_keys()[9] == "AI_SUMMARY_ENABLED"@);
            assert("AI_SUMMARY_ENABLED"@.len() != "ADMIN_USER"@.len());
            assert("AI_SUMMARY_ENABLED"@.len() != "ADMIN_PASSWD"@.len());
        } else if i == 10 {
            assert(allowed_config_keys()[10] == "WEB_DEVICE_COUNT"@);
            assert("WEB_DEVICE_COUNT"@.len() != "ADMIN_USER"@.len());
            assert("WEB_DEVICE_COUNT"@.len() != "ADMIN_PASSWD"@.len());
        } else if i == 11 {
            assert(allowed_config_keys()[11] == "WEB_COMMENT"@);
            assert("WEB_COMMENT"@.len() != "ADMIN_USER"@.len());
            assert("WEB_COMMENT"@.len() != "ADMIN_PASSWD"@.len());
        } else if i == 12 {
            assert(allowed_config_keys()[12] == "WEB_SUMMARY"@);
            assert("WEB_SUMMARY"@.len() != "ADMIN_USER"@.len());
            assert("WEB_SUMMARY"@.len() != "ADMIN_PASSWD"@.len());
        } else if i == 13 {
            assert(allowed_config_keys()[13] == "GISCUS_REPO"@);
            assert("GISCUS_REPO"@.len() != "ADMIN_USER"@.len());
            assert("GISCUS_REPO"@.len() != "ADMIN_PASSWD"@.len());
        } else if i == 14 {
            assert(allowed_config_keys()[14] == "GISCUS_REPOID"@);
            assert("GISCUS_REPOID"@.len() != "ADMIN_USER"@.len());
            assert("GISCUS_REPOID"@.len() != "ADMIN_PASSWD"@.len());
        } else if i == 15 {
            assert(allowed_config_keys()[15] == "GISCUS_CATEGORY"@);
            assert("GISCUS_CATEGORY"@.len() != "ADMIN_USER"@.len());
            assert("GISCUS_CATEGORY"@.len() != "ADMIN_PASSWD"@.len());
        } else if i == 16 {
            assert(allowed_config_keys()[16] == "GISCUS_CATEGORYID"@);
            assert("GISCUS_CATEGORYID"@.len() != "ADMIN_USER"@.len());
            assert("GISCUS_CATEGORYID"@.len() != "ADMIN_PASSWD"@.len());
        } else if i == 17 {
            assert(allowed_config_keys()[17] == "GISCUS_MAPPING"@);
            assert("GISCUS_MAPPING"@.len() != "ADMIN_USER"@.len());
            assert("GISCUS_MAPPING"@.len() != "ADMIN_PASSWD"@.len());
        } else if i == 18 {
            assert(allowed_config_keys()[18] == "GISCUS_REACTIONSENABLED"@);
            assert("GISCUS_REACTIONSENABLED"@.len() != "ADMIN_USER"@.len());
            assert("GISCUS_REACTIONSENABLED"@.len() != "ADMIN_PASSWD"@.len());
        } else if i == 19 {
            assert(allowed_config_keys()[19] == "GISCUS_EMITMETADATA"@);
            assert("GISCUS_EMITMETADATA"@.len() != "ADMIN_USER"@.len());
            assert("GISCUS_EMITMETADATA"@.len() != "ADMIN_PASSWD"@.len());
        } else if i == 20 {
            assert(allowed_config_keys()[20] == "GISCUS_INPUTPOSITION"@);
            assert("GISCUS_INPUTPOSITION"@.len() != "ADMIN_USER"@.len());
            assert("GISCUS_INPUTPOSITION"@.len() != "ADMIN_PASSWD"@.len());
        } else if i == 21 {
            assert(allowed_config_keys()[21] == "GISCUS_THEME"@);
            assert("GISCUS_THEME"@.len() != "ADMIN_USER"@.len());
            assert("GISCUS_THEME"@[0] != "ADMIN_PASSWD"@[0]);
        } else if i == 22 {
            assert(allowed_config_keys()[22] == "GISCUS_LANG"@);
            assert("GISCUS_LANG"@.len() != "ADMIN_USER"@.len());
            assert("GISCUS_LANG"@.len() != "ADMIN_PASSWD"@.len());
        }
    }
}

/// A change of settings that names only keys that may be changed is accepted.
pub proof fn lemma_allowed_updates_accepted(updates: Seq<(String, String)>)
    requires
        forall|i: int| 0 <= i < updates.len() ==> allowed_config_keys().contains(#[trigger] updates[i].0@),
    ensures
        disallowed_keys(updates).len() == 0,
    decreases updates.len(),
{
    if updates.len() > 0 {
        let pre = updates.drop_last();
        assert forall|i: int| 0 <= i < pre.len() implies allowed_config_keys().contains(#[trigger] pre[i].0@) by {
            assert(pre[i] == updates[i]);
        }
        lemma_allowed_updates_accepted(pre);
        assert(allowed_config_keys().contains(updates[updates.len() - 1].0@));
    }
}

/// The updated keys that may not be changed, in order.
pub open spec fn disallowed_keys(updates: Seq<(String, String)>) -> Seq<Seq<char>>
    decreases updates.len(),
{
    if updates.len() == 0 {
        seq![]
    } else {
        let r = disallowed_keys(updates.drop_last());
        if allowed_config_keys().contains(updates.last().0@) {
            r
        } else {
            r.push(updates.last().0@)
        }
    }
}

/// The message that refuses an empty change of settings.
pub open spec fn no_updates_message() -> Seq<char> {
    "请提供要更新的配置项"@
}

/// The message that refuses keys that may not be changed.
pub open spec fn disallowed_message(keys: Seq<Seq<char>>) -> Seq<char> {
    "不允许修改的配置项: "@ + joined(keys, ", "@) + "，请在 Cloudflare Dashboard 或 wrangler.toml 中修改"@
}

/// Checks a change of the stored settings before anything is read: refused (with
/// the message) when it is empty or names a key that may not be changed.
pub fn check_config_update(updates: &Vec<(String, String)>) -> (res: Result<(), String>)
    ensures
        updates.len() == 0 ==> (res matches Err(m) && m@ == no_updates_message()),
        updates.len() > 0 && disallowed_keys(updates@).len() > 0 ==> (res matches Err(m) && m@
            == disallowed_message(disallowed_keys(updates@))),
        res is Ok <==> (updates.len() > 0 && disallowed_keys(updates@).len() == 0),
{
    if updates.len() == 0 {
        return Err(String::from_str("请提供要更新的配置项"));
    }
    let mut invalid: Vec<String> = Vec::new();
    let mut i: usize = 0;
    assert(updates@.take(0) =~= Seq::<(String, String)>::empty());
    while i < updates.len()
        invariant
            i <= updates.len(),
            invalid@.map_values(|p: String| p@) == disallowed_keys(updates@.take(i as int)),
        decreases updates.len() - i,
    {
        assert(updates@.take(i + 1).drop_last() =~= updates@.take(i as int));
        assert(updates@.take(i + 1).last() == updates@[i as int]);
        let ghost before = invalid@;
        if !is_allowed_config_key(updates[i].0.as_str()) {
            invalid.push(updates[i].0.clone());
            assert(invalid@.map_values(|p: String| p@) =~= before.map_values(|p: String| p@).push(updates@[i as int].0@));
        }
        i = i + 1;
    }
    assert(updates@.take(updates.len() as int) =~= updates@);
    if invalid.len() > 0 {
        let mut msg: Vec<char> = Vec::new();
        push_str(&mut msg, "不允许修改的配置项: ");
        push_joined(&mut msg, &invalid, ", ");
        push_str(&mut msg, "，请在 Cloudflare Dashboard 或 wrangler.toml 中修改");
        assert(msg@ =~= disallowed_message(disallowed_keys(updates@)));
        return Err(string_of(&msg));
    }
    Ok(())
}

/// A change of the stored settings: refused as `check_config_update` refuses it;
/// else the settings with the updates applied.
pub fn plan_config_update(config: &Vec<(String, String)>, updates: &Vec<(String, String)>) -> (res: Result<
    Vec<(String, String)>,
    String,
>)
    ensures
        updates.len() == 0 ==> (res matches Err(m) && m@ == no_updates_message()),
        updates.len() > 0 && disallowed_keys(updates@).len() > 0 ==> (res matches Err(m) && m@
            == disallowed_message(disallowed_keys(updates@))),
        res is Ok <==> (updates.len() > 0 && disallowed_keys(updates@).len() == 0),
        res matches Ok(c) ==> forall|k: Seq<char>| setting_lookup(c@, k) == updated_lookup(config@, updates@, k),
        updates.len() > 0 && (forall|i: int|
            0 <= i < updates.len() ==> allowed_config_keys().contains(#[trigger] updates@[i].0@)) ==> res is Ok,
{
    proof {
        if forall|i: int| 0 <= i < updates.len() ==> allowed_config_keys().contains(#[trigger] updates@[i].0@) {
            lemma_allowed_updates_accepted(updates@);
        }
    }
    match check_config_update(updates) {
        Err(m) => Err(m),
        Ok(()) => {
            let mut updated = clone_settings(config);
            apply_config_updates(&mut updated, updates);
            Ok(updated)
        },
    }
}

fn clone_settings(v: &Vec<(String, String)>) -> (res: Vec<(String, String)>)
    ensures
        res@ == v@,
{
    let mut out: Vec<(String, String)> = Vec::new();
    let mut i: usize = 0;
    while i < v.len()
        invariant
            i <= v.len(),
            out@ == v@.take(i as int),
        decreases v.len() - i,
    {
        out.push((v[i].0.clone(), v[i].1.clone()));
        i = i + 1;
        assert(out@ =~= v@.take(i as int));
    }
    out
}

/// The message that refuses an account change naming neither field.
pub open spec fn nothing_to_update_message() -> Seq<char> {
    "请提供要更新的用户名或密码"@
}

/// Checks an account change before anything is read: refused when it names
/// neither a user name nor a password.
pub fn check_account_update(req: &AccountUpdateRequest) -> (res: Result<(), String>)
    ensures
        (req.username is None && req.password is None) ==> (res matches Err(m) && m@ == nothing_to_update_message()),
        res is Ok <==> (req.username is Some || req.password is Some),
{
    if req.username.is_none() && req.password.is_none() {
        return Err(String::from_str("请提供要更新的用户名或密码"));
    }
    Ok(())
}

/// The admin account changed in the stored settings, with the message naming what
/// changed; refused when neither a user name nor a password is given.
pub fn plan_account_update(req: &AccountUpdateRequest, config: &Vec<(String, String)>) -> (res: Result<
    (Vec<(String, String)>, String),
    String,
>)
    ensures
        (req.username is None && req.password is None) ==> (res matches Err(m) && m@ == nothing_to_update_message()),
        res is Ok <==> (req.username is Some || req.password is Some),
        res matches Ok(r) ==> {
            &&& setting_lookup(r.0@, "ADMIN_USER"@) == match req.username {
                Some(u) => Some(u@),
                None => setting_lookup(config@, "ADMIN_USER"@),
            }
            &&& setting_lookup(r.0@, "ADMIN_PASSWD"@) == match req.password {
                Some(p) => Some(p@),
                None => setting_lookup(config@, "ADMIN_PASSWD"@),
            }
            &&& forall|k: Seq<char>| k != "ADMIN_USER"@ && k != "ADMIN_PASSWD"@ ==> setting_lookup(r.0@, k) == setting_lookup(config@, k)
            &&& r.1@ == "账户信息已更新（"@ + joined(
                if req.username is Some && req.password is Some {
                    seq!["用户名"@, "密码"@]
                } else if req.username is Some {
                    seq!["用户名"@]
                } else {
                    seq!["密码"@]
                },
                "、"@,
            ) + "）"@
        },
{
    if req.username.is_none() && req.password.is_none() {
        return Err(String::from_str("请提供要更新的用户名或密码"));
    }
    let mut updated = clone_settings(config);
    let mut fields: Vec<String> = Vec::new();
    let user_key = String::from_str("ADMIN_USER");
    let pass_key = String::from_str("ADMIN_PASSWD");
    proof {
        assert("ADMIN_USER"@ != "ADMIN_PASSWD"@) by {
            reveal_strlit("ADMIN_USER");
            reveal_strlit("ADMIN_PASSWD");
            assert("ADMIN_USER"@[6] != "ADMIN_PASSWD"@[6]);
        }
    }
    match &req.username {
        Some(u) => {
            set_setting(&mut updated, &user_key, u);
            fields.push(String::from_str("用户名"));
        },
        None => {},
    }
    match &req.password {
        Some(p) => {
            set_setting(&mut updated, &pass_key, p);
            fields.push(String::from_str("密码"));
        },
        None => {},
    }
    let mut msg: Vec<char> = Vec::new();
    push_str(&mut msg, "账户信息已更新（");
    push_joined(&mut msg, &fields, "、");
    push_str(&mut msg, "）");
    proof {
        let expected = if req.username is Some && req.password is Some {
            seq!["用户名"@, "密码"@]
        } else if req.username is Some {
            seq!["用户名"@]
        } else {
            seq!["密码"@]
        };
        assert(fields@.map_values(|p: String| p@) =~= expected);
    }
    Ok((updated, string_of(&msg)))
}

/// The settings that the admin page shows, with the value each has in the environment.
pub open spec fn admin_config_defaults() -> Seq<(Seq<char>, Seq<char>)> {
    seq![
        ("ADMIN_USER"@, "admin"@), ("AI_API_URL"@, "未设置"@), ("AI_MODEL"@, "gpt-4"@),
        ("AI_MAX_TOKENS"@, "1000"@), ("AI_PROMPT"@, "未设置"@), ("PUBLISH_ENABLED"@, "false"@),
        ("PUBLISH_API_URL"@, "未设置"@), ("PUBLISH_API_KEY"@, "未设置"@), ("DEFAULT_TIMEZONE_OFFSET"@, "8"@),
        ("AI_SUMMARY_ENABLED"@, "true"@), ("WEB_DEVICE_COUNT"@, "true"@), ("WEB_COMMENT"@, "true"@),
        ("WEB_SUMMARY"@, "true"@), ("GISCUS_REPO"@, ""@), ("GISCUS_REPOID"@, ""@), ("GISCUS_CATEGORY"@, ""@),
        ("GISCUS_CATEGORYID"@, ""@), ("GISCUS_MAPPING"@, ""@), ("GISCUS_REACTIONSENABLED"@, ""@),
        ("GISCUS_EMITMETADATA"@, ""@), ("GISCUS_INPUTPOSITION"@, ""@), ("GISCUS_THEME"@, ""@),
        ("GISCUS_LANG"@, ""@),
    ]
}

fn push_env_entry(out: &mut Vec<(String, String)>, env: &EnvVars, key: &str, default: &str)
    ensures
        final(out)@.len() == old(out)@.len() + 1,
        final(out)@.take(old(out)@.len() as int) == old(out)@,
        final(out)@.last().0@ == key@,
        final(out)@.last().1@ == env_or(env.vars@, key@, default@),
{
    out.push((key.to_owned(), get_env_or(env, key, default)));
    assert(out@.take(old(out)@.len() as int) =~= old(out)@);
}

/// The settings that the admin page shows: each name with its environment value or
/// default, then the platform.
pub fn admin_config_view(env: &EnvVars) -> (res: Vec<(String, String)>)
    ensures
        res.len() == admin_config_defaults().len() + 1,
        forall|i: int| 0 <= i < admin_config_defaults().len() ==> (#[trigger] res@[i]).0@ == admin_config_defaults()[i].0
            && res@[i].1@ == env_or(env.vars@, admin_config_defaults()[i].0, admin_config_defaults()[i].1),
        res@.last().0@ == "PLATFORM"@,
        res@.last().1@ == "cloudflare-workers"@,
{
    let mut out: Vec<(String, String)> = Vec::new();
    let ghost d = admin_config_defaults();
    push_env_entry(&mut out, env, "ADMIN_USER", "admin");
    push_env_entry(&mut out, env, "AI_API_URL", "未设置");
    push_env_entry(&mut out, env, "AI_MODEL", "gpt-4");
    push_env_entry(&mut out, env, "AI_MAX_TOKENS", "1000");
    push_env_entry(&mut out, env, "AI_PROMPT", "未设置");
    push_env_entry(&mut out, env, "PUBLISH_ENABLED", "false");
    push_env_entry(&mut out, env, "PUBLISH_API_URL", "未设置");
    push_env_entry(&mut out, env, "PUBLISH_API_KEY", "未设置");
    push_env_entry(&mut out, env, "DEFAULT_TIMEZONE_OFFSET", "8");
    push_env_entry(&mut out, env, "AI_SUMMARY_ENABLED", "true");
    push_env_entry(&mut out, env, "WEB_DEVICE_COUNT", "true");
    push_env_entry(&mut out, env, "WEB_COMMENT", "true");
    push_env_entry(&mut out, env, "WEB_SUMMARY", "true");
    push_env_entry(&mut out, env, "GISCUS_REPO", "");
    push_env_entry(&mut out, env, "GISCUS_REPOID", "");
    push_env_entry(&mut out, env, "GISCUS_CATEGORY", "");
    push_env_entry(&mut out, env, "GISCUS_CATEGORYID", "");
    push_env_entry(&mut out, env, "GISCUS_MAPPING", "");
    push_env_entry(&mut out, env, "GISCUS_REACTIONSENABLED", "");
    push_env_entry(&mut out, env, "GISCUS_EMITMETADATA", "");
    push_env_entry(&mut out, env, "GISCUS_INPUTPOSITION", "");
    push_env_entry(&mut out, env, "GISCUS_THEME", "");
    push_env_entry(&mut out, env, "GISCUS_LANG", "");
    let ghost mid = out@;
    out.push((String::from_str("PLATFORM"), String::from_str("cloudflare-workers")));
    assert(out@.take(mid.len() as int) =~= mid);
    out
}

} // verus!
