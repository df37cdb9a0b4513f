use osubot::config::{
    BotConfig, Config, ConfigError, DatabaseConfig, GroupFilterConfig, GroupsConfig, IrcConfig, OsuConfig,
    ProviderConfig, SchedulerConfig, UpstreamConfig,
};
use osubot::last_beatmap_cache::LastBeatmapCache;
use osubot::preview::{
    conversion, frame_times, frame_times_in_range, generate_linear_samples, hex_of, join_mods, mod_suffix, preview_filename, preview_target,
    render_kind, use_gif, Conversion, PreviewTarget, RenderKind,
};
use osubot::reload::{
    drain_wait, irc_restart, plan_side_effects, provider_kinds, reload_config, reload_end, DrainWait, IrcRestart,
    MutableConfig, ProviderKind,
};
use osubot::scheduler::{
    classify_activity, cleanup_due, in_cooldown, in_last_day, play_timestamps, records_activity, should_save_snapshot, today_flags,
    update_interval_hours, SnapshotLookup, UserActivity,
};
use osubot::score_query::{
    api_fetch_limit, beatmap_query_plan, filter_scores, process_scores, query_spec, resolve_beatmap, select_scores,
    shortcut_route, survivors_count, last_beatmap_after_fetch, today_scores, wants_unstable_rate, QueryKind, RenderOutput, ScoreQueryPlan, Selection, ShortcutRoute,
};

fn base_config() -> Config {
    Config {
        osu: OsuConfig { client_secret: "s".into(), client_id: "i".into() },
        bot: BotConfig {
            onebot_url: "ws://localhost".into(),
            command_timeout_secs: 60,
            render_timeout_secs: 60,
            onebot_api_timeout_secs: 10,
            ur_timeout_secs: 60,
        },
        database: DatabaseConfig { path: "test.db".into() },
        scheduler: SchedulerConfig::default(),
        irc: IrcConfig::default(),
        group_filter: GroupFilterConfig::default(),
        groups: GroupsConfig::default(),
        upstream: UpstreamConfig::default(),
    }
}

fn provider(t: &str) -> ProviderConfig {
    ProviderConfig {
        provider_type: t.to_string(),
        rate_per_minute: 10,
        burst: 2,
        url: None,
        access_token: None,
        self_id: None,
        timeout_secs: 10,
    }
}

// ---- score queries ----

#[test]
fn today_best_fetches_the_filter_limit() {
    let s = query_spec(QueryKind::TodayBest, true);
    assert_eq!(s.render, RenderOutput::ScoreListCard);
    assert_eq!(s.api_fetch_limit, Some(200));
    assert!(s.truncate_bare_list);
    let p = query_spec(QueryKind::BeatmapPreview, true);
    assert_eq!(p.render, RenderOutput::BeatmapPreview);
    assert!(!p.single_needs_backfill);
    assert_eq!(query_spec(QueryKind::Pass, false).empty_msg_key, "query.no_records_pass");
}

#[test]
fn fetch_limit_is_raised_for_client_side_filtering() {
    assert_eq!(api_fetch_limit(None, 3, None, false, false), 3);
    assert_eq!(api_fetch_limit(None, 3, Some(8), false, false), 8);
    assert_eq!(api_fetch_limit(None, 3, None, true, false), 200);
    assert_eq!(api_fetch_limit(None, 3, None, false, true), 200);
    assert_eq!(api_fetch_limit(None, 300, None, true, false), 300);
    assert_eq!(api_fetch_limit(Some(200), 1, None, false, false), 200);
}

#[test]
fn beatmap_plans() {
    assert_eq!(beatmap_query_plan(false, 1, None, false), ScoreQueryPlan::single());
    assert_eq!(beatmap_query_plan(false, 1, None, true), ScoreQueryPlan::single_with_filters(200));
    assert_eq!(beatmap_query_plan(true, 1, None, false), ScoreQueryPlan::list(None));
    assert_eq!(beatmap_query_plan(true, 5, None, true), ScoreQueryPlan::list(Some(200)));
    assert_eq!(beatmap_query_plan(false, 2, Some(4), false), ScoreQueryPlan::range(4));
}

#[test]
fn filter_and_range() {
    assert_eq!(filter_scores(vec![1, 2, 3, 4], &[true, false, true, true]), vec![1, 3, 4]);
    assert_eq!(process_scores(vec![1, 2, 3, 4], &[true, true, true, true], 2, Some(3)), Ok(vec![2, 3]));
    assert_eq!(process_scores(vec![1, 2], &[false, false], 1, None), Err("query.no_match"));
    assert_eq!(process_scores(vec![1, 2], &[true, true], 3, Some(5)), Err("query.index_out_of_range"));
    assert_eq!(process_scores(vec![1, 2, 3], &[true, true, true], 2, Some(9)), Ok(vec![2, 3]));
}

#[test]
fn selections() {
    let ids = [10, 20, 10, 30];
    let keep = [true, true, false, true];
    assert_eq!(select_scores(&[], &[], None, 1, None, false, false), Selection::NoRecords);
    assert_eq!(select_scores(&ids, &keep, Some(99), 1, None, false, false), Selection::NoMatch);
    assert_eq!(select_scores(&ids, &keep, None, 2, None, false, false), Selection::Single { position: 1, index: 1 });
    assert_eq!(select_scores(&ids, &keep, Some(10), 1, None, false, false), Selection::Single { position: 0, index: 0 });
    assert_eq!(select_scores(&ids, &keep, None, 4, None, false, false), Selection::OutOfRange { pos: 4, total: 3 });
    assert_eq!(select_scores(&ids, &keep, None, 2, None, true, true), Selection::List(vec![0, 1]));
    assert_eq!(select_scores(&ids, &keep, None, 2, None, true, false), Selection::List(vec![0, 1, 3]));
    assert_eq!(select_scores(&ids, &keep, None, 2, Some(3), false, false), Selection::List(vec![1, 3]));
    assert_eq!(survivors_count(&ids, &keep, None), 3);
    assert_eq!(survivors_count(&ids, &keep, Some(10)), 1);
    assert_eq!(survivors_count(&[], &[], Some(10)), 0);
}

#[test]
fn shortcut_routes_read_the_cache_last() {
    let mut cache = LastBeatmapCache::new();
    cache.set(1, 555);
    assert_eq!(shortcut_route(&mut cache, 1, Some(9), None, false), ShortcutRoute::ScoreById(9));
    assert_eq!(shortcut_route(&mut cache, 1, None, Some(7), false), ShortcutRoute::BeatmapById(7));
    assert_eq!(shortcut_route(&mut cache, 1, None, None, true), ShortcutRoute::Query);
    assert_eq!(shortcut_route(&mut cache, 1, None, None, false), ShortcutRoute::CachedBeatmap(555));
    assert_eq!(shortcut_route(&mut cache, 2, None, None, false), ShortcutRoute::Query);
}

#[test]
fn resolve_beatmap_stores_what_it_finds() {
    let mut cache = LastBeatmapCache::new();
    assert_eq!(resolve_beatmap(&mut cache, 1, None), Err("query.need_beatmap_or_cache"));
    assert_eq!(resolve_beatmap(&mut cache, 1, Some(42)), Ok(42));
    assert_eq!(resolve_beatmap(&mut cache, 1, None), Ok(42));
    assert_eq!(cache.get(1), Some(42));
}

#[test]
fn last_beatmap_is_the_first_fetched() {
    assert_eq!(last_beatmap_after_fetch(&[]), None);
    assert_eq!(last_beatmap_after_fetch(&[987, 5]), Some(987));
    assert_eq!(last_beatmap_after_fetch(&[(1i64 << 32) + 7]), Some(7));
}

#[test]
fn today_best_keeps_the_last_day() {
    let times = vec![
        "2024-01-02T00:00:00Z".to_string(),
        "2023-12-31T00:00:00Z".to_string(),
        "bad".to_string(),
        "2024-01-01T12:00:00Z".to_string(),
    ];
    let now = 1704067200 + 86400;
    assert_eq!(today_scores(&times, now, 0), vec![0, 3]);
    assert!(today_scores(&times[1..3], now, 0).is_empty());
}

// ---- scheduler ----

#[test]
fn activity_classes() {
    assert_eq!(classify_activity(true, true, Some(100)), UserActivity::SemiActive);
    assert_eq!(classify_activity(false, true, Some(100)), UserActivity::Normal);
    assert_eq!(classify_activity(false, false, Some(7)), UserActivity::NoRecent);
    assert_eq!(classify_activity(false, false, Some(8)), UserActivity::Normal);
    assert_eq!(classify_activity(false, false, Some(48)), UserActivity::Inactive);
    assert_eq!(classify_activity(false, false, None), UserActivity::Inactive);
    assert!(records_activity(UserActivity::SemiActive, false));
    assert!(records_activity(UserActivity::Normal, true));
    assert!(!records_activity(UserActivity::Normal, false));
    assert!(!records_activity(UserActivity::NoRecent, true));
}

#[test]
fn default_intervals_follow_activity() {
    let cfg = SchedulerConfig::default();
    assert_eq!(update_interval_hours(&cfg, UserActivity::SemiActive), 4);
    assert_eq!(update_interval_hours(&cfg, UserActivity::NoRecent), 6);
    assert_eq!(update_interval_hours(&cfg, UserActivity::Normal), 8);
    assert_eq!(update_interval_hours(&cfg, UserActivity::UserNotExists), 24);
    assert_eq!(update_interval_hours(&cfg, UserActivity::Inactive), 48);
}

#[test]
fn snapshots_cleanup_and_cooldown() {
    assert!(!should_save_snapshot(SnapshotLookup::Found { rank: Some(5), playcount: 10 }, Some(5), 10));
    assert!(should_save_snapshot(SnapshotLookup::Found { rank: Some(5), playcount: 10 }, Some(6), 10));
    assert!(should_save_snapshot(SnapshotLookup::Found { rank: None, playcount: 10 }, Some(5), 10));
    assert!(should_save_snapshot(SnapshotLookup::Missing, None, 0));
    assert!(cleanup_due(None, 0));
    assert!(cleanup_due(Some(0), 86400));
    assert!(!cleanup_due(Some(1), 86400));
    assert!(in_cooldown(Some(0), 3599, 1));
    assert!(!in_cooldown(Some(0), 3600, 1));
    assert!(!in_cooldown(None, 0, 1));
}

#[test]
fn play_times_parse_rfc3339() {
    let times = vec![
        "2024-01-01T00:00:00Z".to_string(),
        "not a time".to_string(),
        "1970-01-01T00:01:40+00:00".to_string(),
    ];
    assert_eq!(play_timestamps(&times), vec![1704067200, 100]);
}

#[test]
fn today_flags_keep_the_last_day() {
    let times = vec![
        "2024-01-02T00:00:00Z".to_string(),
        "2024-01-01T00:00:00Z".to_string(),
        "2024-01-01T00:00:00.5Z".to_string(),
        "garbage".to_string(),
    ];
    let now = 1704067200 + 86400;
    assert_eq!(today_flags(&times, now, 0), vec![true, false, true, false]);
    assert!(in_last_day(Some((now - 86399, 0)), now, 0));
    assert!(!in_last_day(Some((now - 86400, 0)), now, 0));
    assert!(in_last_day(Some((now - 86400, 1)), now, 0));
    assert!(!in_last_day(None, now, 0));
}

// ---- previews ----

#[test]
fn linear_samples() {
    assert_eq!(generate_linear_samples(0, 300, 4), vec![0, 100, 200, 300]);
    assert_eq!(generate_linear_samples(0, 10, 4), vec![0, 3, 6, 9]);
    assert_eq!(generate_linear_samples(5, 5, 4), vec![5]);
    assert_eq!(generate_linear_samples(0, 100, 1), vec![0]);
}

#[test]
fn preview_frames() {
    assert_eq!(frame_times(&Some(vec![40000]), 100000), Some(vec![10000, 30000, 50000, 70000]));
    assert_eq!(frame_times(&Some(vec![1000]), 20000), Some(vec![0, 6666, 13332, 19998]));
    assert_eq!(frame_times(&Some(vec![9000, 3000]), 6000), Some(vec![3000, 4000, 5000, 6000]));
    assert_eq!(frame_times(&Some(vec![1, 2, 3]), 6000), None);
    assert_eq!(frame_times(&None, 6000), None);
    assert!(frame_times_in_range(&Some(vec![40000]), 100000));
    assert!(!frame_times_in_range(&Some(vec![i64::MAX]), 100000));
    assert!(!frame_times_in_range(&Some(vec![i64::MIN, i64::MAX]), 0));
    assert!(frame_times_in_range(&Some(vec![1, 2, 3]), 0));
}

#[test]
fn preview_targets_and_modes() {
    let mut cache = LastBeatmapCache::new();
    assert_eq!(preview_target(&mut cache, 1, None, Some(5)), PreviewTarget::Beatmap(5));
    assert_eq!(preview_target(&mut cache, 1, Some(6), None), PreviewTarget::Score(6));
    assert_eq!(preview_target(&mut cache, 1, Some(6), Some(5)), PreviewTarget::Refused("error.data_fetch_failed"));
    assert_eq!(preview_target(&mut cache, 1, None, None), PreviewTarget::Refused("query.need_beatmap_or_cache"));
    cache.set(1, 77);
    assert_eq!(preview_target(&mut cache, 1, None, None), PreviewTarget::Beatmap(77));
    assert_eq!(conversion(1, 1), Conversion::Same);
    assert_eq!(conversion(1, 0), Conversion::Convert);
    assert_eq!(conversion(0, 3), Conversion::Unsupported);
    assert!(use_gif(false, 0));
    assert!(!use_gif(false, 2));
    assert_eq!(render_kind(3, false), RenderKind::ManiaGrid);
    assert_eq!(render_kind(1, true), RenderKind::TaikoGif);
    assert_eq!(render_kind(7, true), RenderKind::Unsupported);
}

#[test]
fn preview_file_names() {
    assert_eq!(hex_of(255).iter().collect::<String>(), "ff");
    assert_eq!(hex_of(0).iter().collect::<String>(), "0");
    assert_eq!(preview_filename(123, "", 255, true), "123_ff.gif");
    assert_eq!(preview_filename(123, "hd+dt", 4096, false), "123_hd+dt_1000.png");
    assert_eq!(join_mods(&vec!["HD".to_string(), "DT".to_string()]), "HD+DT");
    assert_eq!(mod_suffix(&vec!["HD".to_string(), "Dt".to_string()]), "hd+dt");
    assert_eq!(mod_suffix(&vec![]), "");
}

// ---- reload ----

#[test]
fn reload_keeps_absent_sections_and_database() {
    let old = base_config();
    let mut new_osu = OsuConfig { client_secret: "s2".into(), client_id: "i".into() };
    new_osu.client_id = "i2".into();
    let m = MutableConfig {
        osu: Some(new_osu),
        scheduler: None,
        group_filter: GroupFilterConfig::default(),
        groups: GroupsConfig::default(),
        upstream: UpstreamConfig::default(),
        bot: None,
        irc: None,
    };
    let c = match reload_config(&old, m) {
        Ok(c) => c,
        Err(ConfigError::Validation(msg)) => panic!("{msg}"),
    };
    assert_eq!(c.osu.client_id, "i2");
    assert_eq!(c.bot.onebot_url, "ws://localhost");
    assert_eq!(c.database.path, "test.db");
    let fx = plan_side_effects(&old, &c);
    assert!(fx.update_oauth);
    assert!(!fx.restart_irc);
    assert!(!fx.reconnect_onebot);
    assert_eq!(fx.onebot_api_timeout_secs, 10);
}

#[test]
fn reload_refuses_an_invalid_bot_section() {
    let old = base_config();
    let mut bot = old.bot.clone();
    bot.onebot_url = String::new();
    let m = MutableConfig {
        osu: None,
        scheduler: None,
        group_filter: GroupFilterConfig::default(),
        groups: GroupsConfig::default(),
        upstream: UpstreamConfig::default(),
        bot: Some(bot),
        irc: None,
    };
    match reload_config(&old, m) {
        Ok(_) => panic!("empty url accepted"),
        Err(ConfigError::Validation(msg)) => assert_eq!(msg, "onebot_url 为空"),
    }
}

#[test]
fn unchanged_reload_is_quiet() {
    let c = base_config();
    let fx = plan_side_effects(&c, &c);
    assert!(!fx.update_oauth && !fx.restart_irc && !fx.reconnect_onebot);
}

#[test]
fn provider_chain() {
    let up = UpstreamConfig { enabled: true, providers: vec![provider("yumu"), provider("xfs")] };
    assert_eq!(provider_kinds(&up).unwrap(), vec![ProviderKind::Yumu, ProviderKind::Xfs]);
    let off = UpstreamConfig { enabled: false, providers: vec![provider("bogus")] };
    assert!(provider_kinds(&off).unwrap().is_empty());
    let bad = UpstreamConfig { enabled: true, providers: vec![provider("xfs"), provider("bogus")] };
    match provider_kinds(&bad) {
        Err(ConfigError::Validation(m)) => assert_eq!(m, "未知的 upstream provider 类型「bogus」（已知：xfs、yumu）"),
        Ok(_) => panic!("unknown provider accepted"),
    }
}

#[test]
fn irc_drain_and_reload_end() {
    let mut irc = IrcConfig::default();
    irc.enabled = false;
    assert_eq!(irc_restart(&irc), IrcRestart::Disabled);
    irc.enabled = true;
    irc.nickname = "nick".into();
    irc.password = String::new();
    assert_eq!(irc_restart(&irc), IrcRestart::Skipped);
    irc.password = "pw".into();
    assert_eq!(irc_restart(&irc), IrcRestart::Start);
    assert_eq!(drain_wait(0, 99999), DrainWait::Drained);
    assert_eq!(drain_wait(2, 30000), DrainWait::TimedOut);
    assert_eq!(drain_wait(2, 29999), DrainWait::KeepWaiting);
    let ok = reload_end(true, true, true, true);
    assert!(ok.install_new_config && ok.apply_side_effects && !ok.keep_draining);
    let bad_file = reload_end(false, true, true, true);
    assert!(!bad_file.install_new_config && !bad_file.keep_draining);
    let timed_out = reload_end(true, false, true, true);
    assert!(!timed_out.install_new_config && timed_out.keep_draining);
    let fx_failed = reload_end(true, true, true, false);
    assert!(fx_failed.install_new_config && fx_failed.keep_draining);
}

#[test]
fn unstable_rate_only_for_standard_scores_with_replays() {
    assert!(wants_unstable_rate(0, 123, true));
    assert!(!wants_unstable_rate(1, 123, true));
    assert!(!wants_unstable_rate(3, 123, true));
    assert!(!wants_unstable_rate(0, 0, true));
    assert!(!wants_unstable_rate(0, 123, false));
}
