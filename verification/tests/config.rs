use osubot::config::{
    CommandGroup, Config, FilterMode, GroupConfig, GroupFilterConfig, GroupsConfig, IrcConfig,
    OsuConfig, ProviderConfig,
};

#[test]
fn test_group_filter_default() {
    let cfg = GroupFilterConfig::default();
    assert_eq!(cfg.mode, FilterMode::Blacklist);
    assert!(cfg.group_ids.is_empty());
    assert!(cfg.is_group_allowed(123456));
}

#[test]
fn test_group_filter_blacklist() {
    let cfg = GroupFilterConfig {
        mode: FilterMode::Blacklist,
        group_ids: vec![111, 222],
    };
    assert!(!cfg.is_group_allowed(111));
    assert!(!cfg.is_group_allowed(222));
    assert!(cfg.is_group_allowed(333));
}

#[test]
fn test_group_filter_whitelist() {
    let cfg = GroupFilterConfig {
        mode: FilterMode::Whitelist,
        group_ids: vec![111, 222],
    };
    assert!(cfg.is_group_allowed(111));
    assert!(cfg.is_group_allowed(222));
    assert!(!cfg.is_group_allowed(333));
}

#[test]
fn test_group_config_is_enabled_default_true() {
    let cfg = GroupConfig::default();
    assert!(cfg.is_enabled(CommandGroup::Query));
    assert!(cfg.is_enabled(CommandGroup::Score));
    assert!(cfg.is_enabled(CommandGroup::BeatmapPreview));
    assert!(cfg.is_enabled(CommandGroup::Profile));
    assert!(cfg.is_enabled(CommandGroup::Highlight));
    assert!(cfg.is_enabled(CommandGroup::Bind));
    assert!(cfg.is_enabled(CommandGroup::Mode));
    assert!(cfg.is_enabled(CommandGroup::Help));
}

#[test]
fn test_group_config_is_enabled_disabled() {
    let cfg = GroupConfig {
        query: Some(true),
        score: Some(false),
        beatmap_preview: None,
        profile: None,
        highlight: Some(false),
        bind: None,
        mode: None,
        help: None,
    };
    assert!(cfg.is_enabled(CommandGroup::Query));
    assert!(!cfg.is_enabled(CommandGroup::Score));
    assert!(cfg.is_enabled(CommandGroup::Profile));
    assert!(!cfg.is_enabled(CommandGroup::Highlight));
    assert!(cfg.is_enabled(CommandGroup::Bind));
    assert!(cfg.is_enabled(CommandGroup::Mode));
    assert!(cfg.is_enabled(CommandGroup::Help));
}

#[test]
fn test_groups_config_get_default() {
    let cfg = GroupsConfig::default();
    let group = cfg.get_group_config(999);
    assert!(group.is_enabled(CommandGroup::Query));
    assert!(group.is_enabled(CommandGroup::Score));
}

#[test]
fn test_groups_config_override() {
    let overrides = vec![(
        "123".to_string(),
        GroupConfig {
            highlight: Some(false),
            bind: Some(false),
            ..Default::default()
        },
    )];
    let cfg = GroupsConfig {
        default: GroupConfig {
            query: Some(true),
            score: Some(false),
            ..Default::default()
        },
        overrides,
    };

    let g123 = cfg.get_group_config(123);
    assert!(g123.is_enabled(CommandGroup::Query));
    assert!(!g123.is_enabled(CommandGroup::Score));
    assert!(g123.is_enabled(CommandGroup::Profile));
    assert!(!g123.is_enabled(CommandGroup::Highlight));
    assert!(!g123.is_enabled(CommandGroup::Bind));
    assert!(g123.is_enabled(CommandGroup::Mode));

    let g999 = cfg.get_group_config(999);
    assert!(g999.is_enabled(CommandGroup::Query));
    assert!(!g999.is_enabled(CommandGroup::Score));
    assert!(g999.is_enabled(CommandGroup::Highlight));
    assert!(g999.is_enabled(CommandGroup::Mode));
}

#[test]
fn test_debug_does_not_leak_client_secret() {
    let osu = OsuConfig {
        client_secret: "super-secret-key".into(),
        client_id: "12345".into(),
    };
    let s = osu.redacted_debug();
    assert!(!s.contains("super-secret-key"));
    assert!(s.contains("<redacted>"));
}

#[test]
fn test_debug_does_not_leak_irc_password() {
    let irc = IrcConfig {
        enabled: false,
        server: "irc.ppy.sh".into(),
        port: 6667,
        nickname: "test".into(),
        password: "super-secret-pass".into(),
    };
    let s = irc.redacted_debug();
    assert!(!s.contains("super-secret-pass"));
    assert!(s.contains("<redacted>"));
}

#[test]
fn test_debug_does_not_leak_access_token() {
    let provider = ProviderConfig {
        provider_type: "xfa".into(),
        rate_per_minute: 10,
        burst: 20,
        url: None,
        access_token: Some("secret-token".into()),
        self_id: None,
        timeout_secs: 10,
    };
    let s = provider.redacted_debug();
    assert!(!s.contains("secret-token"));
    assert!(s.contains("<redacted>"));
}

#[test]
fn debug_text_matches_derived_layout() {
    let osu = OsuConfig {
        client_secret: "s".into(),
        client_id: "12345".into(),
    };
    assert_eq!(
        osu.redacted_debug(),
        "OsuConfig { client_id: \"12345\", client_secret: \"<redacted>\" }"
    );
    let provider = ProviderConfig {
        provider_type: "yumu".into(),
        rate_per_minute: 10,
        burst: 20,
        url: Some("ws://x".into()),
        access_token: None,
        self_id: Some(-7),
        timeout_secs: 10,
    };
    assert_eq!(
        provider.redacted_debug(),
        "ProviderConfig { provider_type: \"yumu\", rate_per_minute: 10, burst: 20, url: Some(\"ws://x\"), access_token: \"<redacted>\", self_id: Some(-7), timeout_secs: 10 }"
    );
    let irc = IrcConfig::default();
    assert_eq!(
        irc.redacted_debug(),
        "IrcConfig { enabled: false, server: \"irc.ppy.sh\", port: 6667, nickname: \"\", password: \"<redacted>\" }"
    );
}

#[test]
fn debug_text_ignores_secret() {
    let a = OsuConfig { client_secret: "one".into(), client_id: "id".into() };
    let b = OsuConfig { client_secret: "two".into(), client_id: "id".into() };
    assert_eq!(a.redacted_debug(), b.redacted_debug());
}

#[test]
fn override_keys_that_are_not_the_group_are_ignored() {
    let cfg = GroupsConfig {
        default: GroupConfig { help: Some(false), ..Default::default() },
        overrides: vec![
            ("default".to_string(), GroupConfig { help: Some(true), ..Default::default() }),
            ("-5".to_string(), GroupConfig { query: Some(false), ..Default::default() }),
        ],
    };
    let g = cfg.get_group_config(7);
    assert!(!g.is_enabled(CommandGroup::Help));
    let neg = cfg.get_group_config(-5);
    assert!(!neg.is_enabled(CommandGroup::Query));
    assert!(!neg.is_enabled(CommandGroup::Help));
}

#[test]
fn debug_text_is_the_same_whatever_the_secret() {
    let a = OsuConfig { client_secret: "one".into(), client_id: "12345".into() };
    let b = OsuConfig { client_secret: "two".into(), client_id: "12345".into() };
    assert_eq!(a.redacted_debug(), b.redacted_debug());
    assert_eq!(a.redacted_debug(), "OsuConfig { client_id: \"12345\", client_secret: \"<redacted>\" }");
}

#[test]
fn configuration_from_environment_falls_back_to_defaults() {
    let c = Config::from_environment(None, Some("legacy-key".to_string()), None, None, None);
    assert_eq!(c.osu.client_secret, "legacy-key");
    assert_eq!(c.osu.client_id, "");
    assert_eq!(c.bot.onebot_url, "ws://127.0.0.1:8080");
    assert_eq!(c.database.path, "osubot.db");
    assert_eq!(c.bot.command_timeout_secs, 120);
    assert_eq!(c.bot.render_timeout_secs, 60);
    assert_eq!(c.bot.onebot_api_timeout_secs, 5);
    assert_eq!(c.bot.ur_timeout_secs, 10);
    assert!(!c.irc.enabled);
    assert!(c.validate().is_ok());

    let d = Config::from_environment(
        Some("secret".to_string()),
        Some("legacy-key".to_string()),
        Some("42".to_string()),
        Some("ws://bot:6700".to_string()),
        Some("/data/osubot.db".to_string()),
    );
    assert_eq!(d.osu.client_secret, "secret");
    assert_eq!(d.osu.client_id, "42");
    assert_eq!(d.bot.onebot_url, "ws://bot:6700");
    assert_eq!(d.database.path, "/data/osubot.db");
}
