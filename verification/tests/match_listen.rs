use osubot::flows::Lookup;
use osubot::match_listener::listen_command::{
    format_ml_response, initial_cursor_from_response, is_listener_effectively_active, listener_expiry,
    match_status, start_after_count, start_after_existing, status_after_listener, stop_result, MatchListenAction,
    MatchListener, MatchResponse, MlActionResult, MlResponse,
};
use osubot::match_listener::state::{EventGame, MatchEvent};
use osubot::reply::{fill_template, Reply};

/// Every key and placeholder value of a response, one after another, so a
/// test can look for ids and names in it.
fn flat(resp: &MlResponse) -> String {
    let mut out = String::new();
    for r in resp.head.iter().chain(resp.lines.iter()) {
        out.push_str(r.key);
        for (_, v) in &r.subs {
            out.push_str(v);
        }
    }
    out
}

fn sub<'a>(r: &'a Reply, name: &str) -> Option<&'a str> {
    r.subs.iter().find(|(k, _)| *k == name).map(|(_, v)| v.as_str())
}

fn unknown() -> String {
    "unknown".to_string()
}

fn make_lobby_event(id: u64) -> MatchEvent {
    MatchEvent {
        id,
        timestamp: "2026-06-01T12:00:00Z".to_string(),
        event_type: "player-joined".to_string(),
        text: "Alpha joined".to_string(),
        game: None,
    }
}

fn make_game_event(id: u64, completed: bool) -> MatchEvent {
    MatchEvent {
        id,
        timestamp: "2026-06-01T12:30:00Z".to_string(),
        event_type: "other".to_string(),
        text: "Game".to_string(),
        game: Some(EventGame {
            end_time: if completed { Some("2026-06-01T12:35:00Z".to_string()) } else { None },
            has_scores: false,
        }),
    }
}

fn make_response(events: Vec<MatchEvent>, latest_event_id: u64) -> MatchResponse {
    MatchResponse {
        match_name: "Test Match".to_string(),
        ended: false,
        user_count: 0,
        latest_event_id,
        events,
    }
}

fn listener(expires_at: i64, active: bool) -> MatchListener {
    MatchListener {
        match_id: 1,
        group_id: 2,
        creator_qq: 3,
        match_name: "Test Match".to_string(),
        last_event_id: None,
        last_notified_event_id: None,
        pending_game_event_id: None,
        created_at: 0,
        expires_at,
        active,
        last_notified_at: None,
    }
}

#[test]
fn start_listener_returns_confirmation() {
    let action = MatchListenAction::Start { match_id: 12345678, skip_rounds: 0 };
    let result = MlActionResult::Started { qq: 100, match_name: "OWC Finals".to_string() };
    let resp = format_ml_response(action, &result, &unknown());
    let text = flat(&resp);
    assert!(text.contains("12345678"));
    assert!(text.contains("OWC Finals"));
    assert_eq!(resp.head[0].key, "ml.start_success");
}

#[test]
fn repeated_start_keeps_success_semantics() {
    let action = MatchListenAction::Start { match_id: 12345678, skip_rounds: 0 };
    let result = MlActionResult::Started { qq: 100, match_name: "MP #12345678".to_string() };
    let resp = format_ml_response(action, &result, &unknown());
    assert_eq!(resp.head[0].key, "ml.start_success");
    assert!(!flat(&resp).contains("ml.already_listening"));
}

#[test]
fn listener_is_effectively_active_only_when_unexpired() {
    let active_unexpired = listener(110, true);
    let active_expired = MatchListener { expires_at: 90, ..active_unexpired.clone() };
    assert!(is_listener_effectively_active(&active_unexpired, 100));
    assert!(!is_listener_effectively_active(&active_expired, 100));
}

#[test]
fn initial_cursor_replays_current_in_progress_game() {
    let response = make_response(vec![make_lobby_event(10), make_game_event(11, false)], 11);
    let cursor = initial_cursor_from_response(&response, 0);
    assert_eq!(cursor.last_event_id, Some(10));
    assert_eq!(cursor.last_notified_event_id, Some(10));
}

#[test]
fn initial_cursor_skips_requested_existing_games() {
    let response = make_response(
        vec![make_lobby_event(10), make_game_event(11, true), make_game_event(12, false)],
        12,
    );
    let cursor = initial_cursor_from_response(&response, 1);
    assert_eq!(cursor.last_event_id, Some(11));
    assert_eq!(cursor.last_notified_event_id, Some(11));
}

#[test]
fn initial_cursor_defaults_to_latest_when_no_current_game() {
    let response = make_response(vec![make_lobby_event(10), make_game_event(11, true)], 11);
    let cursor = initial_cursor_from_response(&response, 0);
    assert_eq!(cursor.last_event_id, Some(11));
    assert_eq!(cursor.last_notified_event_id, Some(11));
}

#[test]
fn stop_listener_returns_confirmation() {
    let action = MatchListenAction::Stop { match_id: 12345678 };
    let result = MlActionResult::Stopped { qq: 100 };
    let resp = format_ml_response(action, &result, &unknown());
    assert!(flat(&resp).contains("12345678"));
    assert_eq!(resp.head[0].key, "ml.stop_success");
}

#[test]
fn stop_all_only_affects_current_group() {
    let action = MatchListenAction::StopAll;
    let result = MlActionResult::StoppedAll { qq: 100, count: 2 };
    let resp = format_ml_response(action, &result, &unknown());
    assert!(flat(&resp).contains("2"));
    assert_eq!(resp.head[0].key, "ml.stop_all_success");
}

#[test]
fn list_empty_returns_chinese() {
    let action = MatchListenAction::List;
    let result = MlActionResult::List { qq: 100, listeners: vec![] };
    let resp = format_ml_response(action, &result, &unknown());
    assert_eq!(resp.head.len(), 1);
    assert_eq!(resp.head[0].key, "ml.list_empty");
}

#[test]
fn status_missing_returns_not_found() {
    let action = MatchListenAction::Status { match_id: 999 };
    let result = MlActionResult::NotFound { qq: 100 };
    let resp = format_ml_response(action, &result, &unknown());
    assert_eq!(resp.head[0].key, "ml.not_found");
    assert!(flat(&resp).contains("999"));
}

#[test]
fn status_active_returns_details() {
    let action = MatchListenAction::Status { match_id: 12345678 };
    let result = MlActionResult::Status {
        qq: 100,
        match_name: "Test Match".to_string(),
        finished: false,
        players: 4,
        games_played: 5,
    };
    let resp = format_ml_response(action, &result, &unknown());
    assert!(flat(&resp).contains("Test Match"));
    assert_eq!(sub(&resp.head[2], "{status}"), Some("ml.match_status_in_progress"));
}

#[test]
fn limit_exceeded_returns_chinese_error() {
    let action = MatchListenAction::Start { match_id: 1, skip_rounds: 0 };
    let result = start_after_count(Ok(3), 3, 100).unwrap();
    let resp = format_ml_response(action, &result, &unknown());
    assert_eq!(resp.head[0].key, "ml.limit_exceeded");
    assert_eq!(sub(&resp.head[0], "{limit}"), Some("3"));
}

#[test]
fn already_listening_returns_chinese_error() {
    let action = MatchListenAction::Start { match_id: 1, skip_rounds: 0 };
    let result = MlActionResult::Error {
        qq: 100,
        message: Reply { key: "ml.already_listening", subs: vec![("{match_id}", "1".to_string())] },
    };
    let resp = format_ml_response(action, &result, &unknown());
    assert_eq!(resp.head[0].key, "ml.already_listening");
}

#[test]
fn fetch_failed_error_does_not_double_mention() {
    let action = MatchListenAction::Start { match_id: 42, skip_rounds: 0 };
    let result = start_after_count(Err(()), 3, 100).unwrap();
    let resp = format_ml_response(action, &result, &unknown());
    assert_eq!(resp.head.len(), 1);
    let text = fill_template("[CQ:at,qq={qq}] 获取比赛信息失败", &resp.head[0].subs);
    assert_eq!(text.matches("[CQ:at,qq=100]").count(), 1);
    assert!(text.contains("获取比赛信息失败"));
}

#[test]
fn list_lines_number_listeners_and_name_blank_ones() {
    let mut blank = listener(100, false);
    blank.match_name = "   ".to_string();
    blank.match_id = 7;
    let result = MlActionResult::List { qq: 100, listeners: vec![listener(100, true), blank] };
    let resp = format_ml_response(MatchListenAction::List, &result, &unknown());
    assert_eq!(resp.head[0].key, "ml.list_header");
    assert_eq!(sub(&resp.head[0], "{count}"), Some("2"));
    assert_eq!(resp.lines.len(), 2);
    assert_eq!(sub(&resp.lines[0], "{idx}"), Some("1"));
    assert_eq!(sub(&resp.lines[0], "{match_name}"), Some("Test Match"));
    assert_eq!(sub(&resp.lines[0], "{status}"), Some("ml.listener_active_status"));
    assert_eq!(sub(&resp.lines[1], "{idx}"), Some("2"));
    assert_eq!(sub(&resp.lines[1], "{match_id}"), Some("7"));
    assert_eq!(sub(&resp.lines[1], "{match_name}"), Some("unknown"));
    assert_eq!(sub(&resp.lines[1], "{status}"), Some("ml.listener_stopped_status"));
}

#[test]
fn mismatched_result_is_a_query_failure() {
    let resp = format_ml_response(MatchListenAction::List, &MlActionResult::Stopped { qq: 5 }, &unknown());
    assert_eq!(resp.head[0].key, "error.query_failed");
    assert_eq!(sub(&resp.head[0], "{qq}"), Some("5"));
}

#[test]
fn repeated_start_of_active_listener_is_named_by_id() {
    let existing = Lookup::Found(listener(200, true));
    match start_after_existing(&existing, 100, 12345678, 9) {
        Some(MlActionResult::Started { qq, match_name }) => {
            assert_eq!(qq, 9);
            assert_eq!(match_name, "MP #12345678");
        }
        other => panic!("unexpected {:?}", other),
    }
    assert!(start_after_existing(&Lookup::Found(listener(50, true)), 100, 1, 9).is_none());
    assert!(start_after_existing(&Lookup::Missing, 100, 1, 9).is_none());
}

#[test]
fn count_below_limit_goes_on() {
    assert!(start_after_count(Ok(2), 3, 100).is_none());
}

#[test]
fn stop_and_status_outcomes() {
    assert!(matches!(stop_result(Ok(true), 1), MlActionResult::Stopped { qq: 1 }));
    assert!(matches!(stop_result(Ok(false), 1), MlActionResult::NotFound { qq: 1 }));
    assert!(matches!(stop_result(Err(()), 1), MlActionResult::Error { qq: 1, .. }));
    assert!(status_after_listener(&Lookup::Found(listener(200, true)), 100, 1).is_none());
    assert!(matches!(
        status_after_listener(&Lookup::Found(listener(200, false)), 100, 1),
        Some(MlActionResult::NotFound { qq: 1 })
    ));
    assert!(matches!(status_after_listener(&Lookup::Failed, 100, 1), Some(MlActionResult::Error { .. })));
}

#[test]
fn listener_lives_six_hours() {
    assert_eq!(listener_expiry(1000), 1000 + 21600);
}

#[test]
fn status_counts_games() {
    let mut response = make_response(
        vec![make_lobby_event(10), make_game_event(11, true), make_game_event(12, false)],
        12,
    );
    response.user_count = 4;
    let s = match_status(&response);
    assert_eq!(s.match_name, "Test Match");
    assert!(!s.finished);
    assert_eq!(s.players, 4);
    assert_eq!(s.games_played, 2);
}
