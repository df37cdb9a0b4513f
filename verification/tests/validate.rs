use osubot::config::{
    BotConfig, Config, ConfigError, DatabaseConfig, GroupFilterConfig, GroupsConfig, IrcConfig,
    OsuConfig, SchedulerConfig, UpstreamConfig,
};

fn base_config() -> Config {
    Config {
        osu: OsuConfig { client_secret: "s".into(), client_id: "i".into() },
        bot: BotConfig {
            onebot_url: "ws://localhost".into(),
            command_timeout_secs: osubot::config::default_command_timeout_secs(),
            render_timeout_secs: osubot::config::default_render_timeout_secs(),
            onebot_api_timeout_secs: osubot::config::default_onebot_api_timeout_secs(),
            ur_timeout_secs: osubot::config::default_ur_timeout_secs(),
        },
        database: DatabaseConfig { path: "test.db".into() },
        scheduler: SchedulerConfig::default(),
        irc: IrcConfig::default(),
        group_filter: GroupFilterConfig::default(),
        groups: GroupsConfig::default(),
        upstream: UpstreamConfig::default(),
    }
}

fn message(c: &Config) -> Option<String> {
    match c.validate() {
        Ok(()) => None,
        Err(ConfigError::Validation(m)) => Some(m),
    }
}

#[test]
fn default_timeouts_validate() {
    assert_eq!(message(&base_config()), None);
}

#[test]
fn empty_onebot_url_is_refused() {
    let mut c = base_config();
    c.bot.onebot_url = String::new();
    assert_eq!(message(&c).as_deref(), Some("onebot_url 为空"));
}

#[test]
fn too_small_and_too_large_timeouts_are_refused() {
    let mut c = base_config();
    c.bot.command_timeout_secs = 4;
    assert_eq!(message(&c).as_deref(), Some("command_timeout_secs 过小（4 < 5 秒）"));
    let mut c = base_config();
    c.bot.render_timeout_secs = 601;
    assert_eq!(message(&c).as_deref(), Some("render_timeout_secs 过大（601 > 600 秒）"));
    let mut c = base_config();
    c.bot.onebot_api_timeout_secs = 1;
    assert_eq!(message(&c).as_deref(), Some("onebot_api_timeout_secs 过小（1 < 2 秒）"));
    let mut c = base_config();
    c.bot.ur_timeout_secs = 301;
    assert_eq!(message(&c).as_deref(), Some("ur_timeout_secs 过大（301 > 300 秒）"));
    let mut c = base_config();
    c.bot.command_timeout_secs = 3600;
    assert_eq!(message(&c), None);
}

#[test]
fn scheduler_bounds_are_checked() {
    let mut c = base_config();
    c.scheduler.interval_minutes = 1441;
    assert_eq!(
        message(&c).as_deref(),
        Some("scheduler.interval_minutes 过大（1441 > 1440 分钟 = 1 天）")
    );
    let mut c = base_config();
    c.scheduler.inactive_interval_hours = -3;
    assert_eq!(message(&c).as_deref(), Some("scheduler.inactive_interval_hours 不能为负（-3）"));
}

#[test]
fn first_broken_rule_is_reported() {
    let mut c = base_config();
    c.bot.onebot_url = String::new();
    c.bot.command_timeout_secs = 1;
    assert_eq!(message(&c).as_deref(), Some("onebot_url 为空"));
}

#[test]
fn scheduler_defaults_are_the_documented_ones() {
    let s = SchedulerConfig::default();
    assert_eq!(s.interval_minutes, 1);
    assert_eq!(s.semi_active_interval_hours, 4);
    assert_eq!(s.normal_interval_hours, 8);
    assert_eq!(s.inactive_interval_hours, 48);
    assert_eq!(s.no_recent_interval_hours, 6);
    assert_eq!(s.user_not_exists_interval_hours, 24);
    assert_eq!(s.group_trigger_cooldown_hours, 1);
    assert_eq!(s.retention_days, 180);
    assert_eq!(s.cache_retention_days, 7);
    assert_eq!(osubot::config::default_upstream_url(), "wss://public-service.b11p.com/");
    assert_eq!(osubot::config::default_irc_server(), "irc.ppy.sh");
    assert_eq!(osubot::config::default_irc_port(), 6667);
    assert_eq!(osubot::config::default_timeout_secs(), 10);
    assert_eq!(osubot::config::default_rate_per_minute(), 10);
    assert_eq!(osubot::config::default_burst(), 20);
}
