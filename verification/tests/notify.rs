use osubot::match_listener::notify::{
    avatar_url_for_user, build_match_result_params, build_players, build_team_results,
    event_label, find_user_index, format_game_start_fallback_text, format_lobby_text, BeatmapInfo,
    BeatmapMetadata, BeatmapsetInfo, MatchGame, MatchGameScore, MatchUser,
};

fn make_user(id: u64, name: &str) -> MatchUser {
    MatchUser { id, username: name.to_string(), avatar_url: None }
}

fn make_user_with_avatar(id: u64, name: &str, avatar_url: &str) -> MatchUser {
    MatchUser { id, username: name.to_string(), avatar_url: Some(avatar_url.to_string()) }
}

fn score(user_id: u64, effective_score: i64, team: &str) -> MatchGameScore {
    MatchGameScore { user_id, effective_score, team: team.to_string(), passed: true, mods: Vec::new() }
}

fn make_game(beatmap_id: Option<u64>, end_time: Option<String>, scores: Vec<MatchGameScore>) -> MatchGame {
    MatchGame {
        beatmap_id,
        beatmap: None,
        beatmapset: None,
        end_time,
        mods: Vec::new(),
        team_type: String::new(),
        scoring_type: String::new(),
        scores,
    }
}

fn make_beatmap() -> BeatmapInfo {
    BeatmapInfo { version: "Extra".to_string(), mode: "osu".to_string() }
}

fn make_beatmapset() -> BeatmapsetInfo {
    BeatmapsetInfo { artist: "xi".to_string(), title: "Blue Zenith".to_string(), creator: "Asphyxia".to_string() }
}

fn strings(v: &[&str]) -> Vec<String> {
    v.iter().map(|s| s.to_string()).collect()
}

#[test]
fn formats_player_joined_as_text() {
    let users = vec![make_user(11, "Alpha")];
    let text = format_lobby_text("player-joined", "Alpha joined", &users, "OWC Finals");
    assert!(text.contains("OWC Finals"));
    assert!(text.contains("玩家加入"));
    assert!(text.contains("Alpha joined"));
}

#[test]
fn formats_match_disbanded_as_text() {
    let text = format_lobby_text("match-disbanded", "Match disbanded", &[], "Test");
    assert!(text.contains("比赛解散"));
    assert!(text.contains("Match disbanded"));
}

#[test]
fn formats_map_change_and_match_start_labels() {
    let map = format_lobby_text("beatmap-changed", "Beatmap changed", &[], "Test");
    let start = format_lobby_text("match-started", "Match started", &[], "Test");
    assert!(map.contains("选图变更"));
    assert!(map.contains("Beatmap changed"));
    assert!(start.contains("比赛开始"));
    assert!(start.contains("Match started"));
}

#[test]
fn lobby_text_has_exact_layout() {
    let text = format_lobby_text("host-changed", "Alpha became the host", &[], "M");
    assert_eq!(text, "【M】房主变更\nAlpha became the host");
    assert_eq!(event_label("something-else"), "事件");
    assert_eq!(event_label("other"), "场次结束");
}

#[test]
fn formats_game_start_fallback_with_participants() {
    let users = vec![make_user(11, "Alpha"), make_user(22, "Bravo")];
    let game = make_game(Some(987), None, Vec::new());
    let text = format_game_start_fallback_text(&game, &users, "OWC");
    assert!(text.contains("场次开始"));
    assert!(text.contains("选图：Beatmap #987"));
    assert!(text.contains("参加玩家"));
    assert!(text.contains("Alpha"));
    assert!(text.contains("Bravo"));
    assert!(!text.contains("场次结束"));
}

#[test]
fn start_fallback_without_players_or_beatmap() {
    let game = make_game(None, None, Vec::new());
    let text = format_game_start_fallback_text(&game, &[], "OWC");
    assert_eq!(text, "【OWC】场次开始\n选图：Beatmap #未知\n参加玩家：\n- 暂无玩家信息");
}

#[test]
fn builds_params_for_started_game_without_scores_from_match_users() {
    let users = vec![make_user_with_avatar(11, "Alpha", "https://example.com/alpha.png"), make_user(22, "Bravo")];
    let mut game = make_game(Some(987), None, Vec::new());
    game.beatmap = Some(make_beatmap());
    game.beatmapset = Some(make_beatmapset());
    game.mods = strings(&["DT", "NF"]);
    game.team_type = "team-vs".to_string();
    game.scoring_type = "score".to_string();
    let params = build_match_result_params(42, "Test", "场次开始", "2026-06-01T12:30:00Z", &game, &users)
        .expect("start card should render from match users even before scores exist");
    assert_eq!(params.event_label, "场次开始");
    assert!(params.is_started);
    assert_eq!(params.beatmap_title, "Blue Zenith");
    assert_eq!(params.players.len(), 2);
    assert_eq!(params.players[0].username, "Alpha");
    assert_eq!(params.players[0].avatar_url.as_deref(), Some("https://example.com/alpha.png"));
    assert_eq!(params.players[0].score, 0);
    assert!(params.players[0].passed);
    assert_eq!(params.players[1].username, "Bravo");
    assert_eq!(params.selected_mods, vec!["DT", "NF"]);
    assert_eq!(params.team_type.as_deref(), Some("team-vs"));
    assert_eq!(params.scoring_type.as_deref(), Some("score"));
    assert_eq!(params.players[1].avatar_url.as_deref(), Some("https://a.ppy.sh/22"));
}

#[test]
fn builds_params_for_completed_game() {
    let users = vec![make_user(11, "Alpha")];
    let mut s = score(11, 500000, "blue");
    s.mods = strings(&["HD", "HR"]);
    let mut game = make_game(Some(987), Some("2026-06-01T12:00:00Z".to_string()), vec![s]);
    game.beatmap = Some(make_beatmap());
    game.beatmapset = Some(make_beatmapset());
    game.mods = strings(&["DT"]);
    game.team_type = "team-vs".to_string();
    game.scoring_type = "score".to_string();
    let p = build_match_result_params(42, "Test", "场次结束", "12:00", &game, &users).expect("params");
    assert_eq!(p.match_id, 42);
    assert_eq!(p.beatmap_artist, "xi");
    assert_eq!(p.beatmap_title, "Blue Zenith");
    assert_eq!(p.beatmap_version, "Extra");
    assert_eq!(p.beatmap_mapper, "Asphyxia");
    assert_eq!(p.beatmap_mode, "osu");
    assert_eq!(p.players.len(), 1);
    assert_eq!(p.players[0].username, "Alpha");
    assert_eq!(p.players[0].mods, vec!["HD", "HR"]);
    assert_eq!(p.selected_mods, vec!["DT"]);
    assert_eq!(p.team_type.as_deref(), Some("team-vs"));
    assert_eq!(p.scoring_type.as_deref(), Some("score"));
    assert!(!p.is_started);
}

#[test]
fn builds_params_for_started_game_label() {
    let users = vec![make_user(11, "Alpha")];
    let mut s = score(11, 0, "blue");
    s.passed = false;
    let mut game = make_game(Some(987), None, vec![s]);
    game.beatmap = Some(make_beatmap());
    game.beatmapset = Some(make_beatmapset());
    game.mods = strings(&["NF"]);
    game.team_type = "team-vs".to_string();
    game.scoring_type = "score".to_string();
    let params = build_match_result_params(42, "Test", "场次开始", "2026-06-01T12:30:00Z", &game, &users)
        .expect("in-progress game should render start card");
    assert_eq!(params.event_label, "场次开始");
    assert_eq!(params.played_at, "2026-06-01T12:30:00Z");
    assert_eq!(params.beatmap_title, "Blue Zenith");
    assert_eq!(params.players[0].username, "Alpha");
    assert!(!params.players[0].passed);
    assert_eq!(params.selected_mods, vec!["NF"]);
}

#[test]
fn card_without_beatmap_details_uses_defaults() {
    let game = make_game(Some(796622), Some("t".to_string()), vec![score(11, 123, "")]);
    let p = build_match_result_params(42, "Test", "场次结束", "12:00", &game, &[make_user(11, "Alpha")]).expect("params");
    assert_eq!(p.beatmap_id, 796622);
    assert_eq!(p.beatmap_artist, "");
    assert_eq!(p.beatmap_title, "");
    assert_eq!(p.beatmap_version, "");
    assert_eq!(p.beatmap_mapper, "");
    assert_eq!(p.beatmap_mode, "osu");
    assert_eq!(p.team_type, None);
    assert_eq!(p.scoring_type, None);
    assert!(p.team_results.is_empty());
    let mut blank = make_game(Some(1), None, vec![]);
    blank.team_type = "   ".to_string();
    blank.beatmap = Some(BeatmapInfo { version: "Hard".to_string(), mode: String::new() });
    let q = build_match_result_params(1, "M", "L", "T", &blank, &[]).expect("start card");
    assert_eq!(q.team_type, None);
    assert_eq!(q.beatmap_mode, "osu");
    assert_eq!(q.beatmap_version, "Hard");
    assert!(q.players.is_empty());
}

#[test]
fn build_params_sorts_players_by_score_descending() {
    let users = vec![make_user(1, "Winner"), make_user(2, "RunnerUp")];
    let game = make_game(Some(987), Some("2026-06-01T12:00:00Z".to_string()), vec![score(2, 100, "blue"), score(1, 999, "red")]);
    let players = build_players(&game, &users).expect("params");
    assert_eq!(players[0].placement, 1);
    assert_eq!(players[0].username, "Winner");
    assert_eq!(players[0].score_index, Some(1));
    assert_eq!(players[1].placement, 2);
    assert_eq!(players[1].username, "RunnerUp");
    let teams = build_team_results(&game);
    assert_eq!(teams.len(), 2);
    assert!(teams[0].is_winner);
    assert_eq!(teams[0].team, "red");
    assert_eq!(teams[0].score, 999);
    assert!(!teams[1].is_winner);
    let p = build_match_result_params(42, "Test", "场次结束", "12:00", &game, &users).expect("params");
    assert_eq!(p.players[0].placement, 1);
    assert_eq!(p.players[0].username, "Winner");
    assert_eq!(p.players[1].placement, 2);
    assert_eq!(p.players[1].username, "RunnerUp");
    assert_eq!(p.team_results.len(), 2);
    assert!(p.team_results[0].is_winner);
    assert_eq!(p.team_results[0].team, "red");
}

#[test]
fn returns_none_for_empty_scores() {
    let game = make_game(Some(987), Some("2026-06-01T12:00:00Z".to_string()), vec![]);
    assert!(build_players(&game, &[]).is_none());
    assert!(build_match_result_params(42, "Test", "场次结束", "12:00", &game, &[]).is_none());
}

#[test]
fn returns_none_for_missing_beatmap() {
    let game = make_game(None, Some("2026-06-01T12:00:00Z".to_string()), vec![score(11, 500000, "blue")]);
    assert!(build_players(&game, &[]).is_none());
    assert!(build_match_result_params(42, "Test", "场次结束", "12:00", &game, &[]).is_none());
}

#[test]
fn unknown_player_and_negative_score() {
    let game = make_game(Some(1), Some("t".to_string()), vec![score(5, -3, "")]);
    let players = build_players(&game, &[make_user(6, "Other")]).unwrap();
    assert_eq!(players[0].username, "未知玩家");
    assert_eq!(players[0].score, 0);
    assert_eq!(players[0].team, None);
    assert_eq!(players[0].avatar_url, None);
}

#[test]
fn ties_keep_reported_order() {
    let users = vec![make_user(1, "A"), make_user(2, "B"), make_user(3, "C")];
    let game = make_game(Some(1), Some("t".to_string()), vec![score(1, 10, ""), score(2, 20, ""), score(3, 10, "")]);
    let players = build_players(&game, &users).unwrap();
    let names: Vec<&str> = players.iter().map(|p| p.username.as_str()).collect();
    assert_eq!(names, vec!["B", "A", "C"]);
}

#[test]
fn team_totals_sum_trimmed_teams_and_need_two() {
    let game = make_game(Some(1), Some("t".to_string()), vec![score(1, 100, " blue "), score(2, 50, "blue"), score(3, 150, "red"), score(4, 7, "")]);
    let teams = build_team_results(&game);
    assert_eq!(teams.len(), 2);
    assert_eq!(teams[0].team, "blue");
    assert_eq!(teams[0].score, 150);
    assert!(teams[0].is_winner);
    assert_eq!(teams[1].team, "red");
    assert!(teams[1].is_winner);

    let one_team = make_game(Some(1), Some("t".to_string()), vec![score(1, 1, "blue")]);
    assert!(build_team_results(&one_team).is_empty());
    let unfinished = make_game(Some(1), None, vec![score(1, 1, "a"), score(2, 2, "b")]);
    assert!(build_team_results(&unfinished).is_empty());
}

#[test]
fn avatar_falls_back_to_osu_address() {
    assert_eq!(avatar_url_for_user(&make_user_with_avatar(5, "x", "  ")).as_deref(), Some("https://a.ppy.sh/5"));
    assert_eq!(avatar_url_for_user(&make_user(0, "x")), None);
    assert_eq!(
        avatar_url_for_user(&make_user(u64::MAX, "x")).as_deref(),
        Some("https://a.ppy.sh/18446744073709551615")
    );
    assert_eq!(find_user_index(&[make_user(1, "a"), make_user(2, "b"), make_user(2, "c")], 2), Some(1));
    assert_eq!(find_user_index(&[make_user(1, "a")], 9), None);
}

#[test]
fn build_output_applies_fallback_beatmap_metadata() {
    let users = vec![make_user(11, "Alpha")];
    let game = make_game(Some(796622), Some("2026-06-01T12:00:00Z".to_string()), vec![score(11, 123, "")]);
    let mut p = build_match_result_params(42, "Test", "场次结束", "12:00", &game, &users).expect("params");
    p.apply_beatmap_metadata(BeatmapMetadata {
        artist: "Rhapsody".to_string(),
        title: "Power of the Dragonflame".to_string(),
        version: "Normal".to_string(),
        creator: "nebuyuwa".to_string(),
        mode: "osu".to_string(),
    });
    assert_eq!(p.beatmap_artist, "Rhapsody");
    assert_eq!(p.beatmap_title, "Power of the Dragonflame");
    assert_eq!(p.beatmap_version, "Normal");
    assert_eq!(p.beatmap_mapper, "nebuyuwa");
    assert_eq!(p.beatmap_mode, "osu");
    p.apply_beatmap_metadata(BeatmapMetadata {
        artist: "Other".to_string(),
        title: "Other".to_string(),
        version: "Other".to_string(),
        creator: "Other".to_string(),
        mode: "mania".to_string(),
    });
    assert_eq!(p.beatmap_artist, "Rhapsody");
    assert_eq!(p.beatmap_mode, "mania");
}
