use osubot::match_listener::state::{
    process_events, EventGame, ListenerCursor, MatchEvent, NotificationAction, StopReason,
};

fn make_lobby_event(id: u64, event_type: &str, text: &str) -> MatchEvent {
    MatchEvent {
        id,
        timestamp: "2026-06-01T12:00:00Z".to_string(),
        event_type: event_type.to_string(),
        text: text.to_string(),
        game: None,
    }
}

fn make_game_event(id: u64, end_time: Option<&str>) -> MatchEvent {
    MatchEvent {
        id,
        timestamp: "2026-06-01T12:30:00Z".to_string(),
        event_type: "other".to_string(),
        text: "Blue Team won".to_string(),
        game: Some(EventGame {
            end_time: end_time.map(|s| s.to_string()),
            has_scores: true,
        }),
    }
}

fn make_disbanded_event(id: u64) -> MatchEvent {
    make_lobby_event(id, "match-disbanded", "Match disbanded")
}

fn empty_cursor() -> ListenerCursor {
    ListenerCursor {
        last_event_id: None,
        last_notified_event_id: None,
        pending_game_event_id: None,
    }
}

#[test]
fn first_poll_lobby_events_produce_text_notifications() {
    let cursor = empty_cursor();
    let events = vec![
        make_lobby_event(10, "match-created", "Alpha created the match"),
        make_lobby_event(11, "player-joined", "Bravo joined"),
    ];
    let output = process_events(&cursor, &events);
    assert_eq!(output.notifications.len(), 1);
    assert!(matches!(
        &output.notifications[0],
        NotificationAction::Text { event_id: 10, event_type, .. } if event_type == "match-created"
    ));
    assert_eq!(output.new_last_event_id, Some(11));
    assert_eq!(output.new_last_notified_event_id, Some(11));
    assert_eq!(output.new_pending_game_event_id, None);
    assert_eq!(output.stop_reason, None);
}

#[test]
fn suppresses_player_joined_broadcast_but_advances_cursor() {
    let output = process_events(&empty_cursor(), &vec![make_lobby_event(11, "player-joined", "Bravo joined")]);
    assert!(output.notifications.is_empty());
    assert_eq!(output.new_last_event_id, Some(11));
    assert_eq!(output.new_last_notified_event_id, Some(11));
}

#[test]
fn suppresses_player_left_broadcast_but_advances_cursor() {
    let output = process_events(&empty_cursor(), &vec![make_lobby_event(11, "player-left", "Bravo left")]);
    assert!(output.notifications.is_empty());
    assert_eq!(output.new_last_event_id, Some(11));
    assert_eq!(output.new_last_notified_event_id, Some(11));
}

#[test]
fn suppresses_host_changed_broadcast_but_advances_cursor() {
    let output = process_events(
        &empty_cursor(),
        &vec![make_lobby_event(11, "host-changed", "Alpha became the host")],
    );
    assert!(output.notifications.is_empty());
    assert_eq!(output.new_last_event_id, Some(11));
    assert_eq!(output.new_last_notified_event_id, Some(11));
}

#[test]
fn emits_image_for_completed_game() {
    let output = process_events(&empty_cursor(), &vec![make_game_event(10, Some("2026-06-01T12:29:58Z"))]);
    assert_eq!(output.notifications.len(), 1);
    assert!(matches!(
        &output.notifications[0],
        NotificationAction::Image { event_id: 10, event_label, .. } if event_label == "场次结束"
    ));
    assert_eq!(output.new_last_event_id, Some(10));
    assert_eq!(output.new_last_notified_event_id, Some(10));
    assert_eq!(output.new_pending_game_event_id, None);
}

#[test]
fn holds_cursor_for_in_progress_game() {
    let events = vec![
        make_lobby_event(10, "player-joined", "Alpha joined"),
        make_game_event(11, None),
        make_lobby_event(12, "player-joined", "Bravo joined"),
    ];
    let output = process_events(&empty_cursor(), &events);
    assert_eq!(output.notifications.len(), 1);
    assert!(matches!(
        &output.notifications[0],
        NotificationAction::Image { event_id: 11, event_label, played_at, .. }
            if event_label == "场次开始" && played_at == "2026-06-01T12:30:00Z"
    ));
    assert_eq!(output.new_last_event_id, Some(10));
    assert_eq!(output.new_last_notified_event_id, Some(11));
    assert_eq!(output.new_pending_game_event_id, Some(11));
    assert_eq!(output.stop_reason, None);
}

#[test]
fn does_not_repeat_start_image_for_existing_pending_game() {
    let cursor = ListenerCursor {
        last_event_id: Some(10),
        last_notified_event_id: Some(11),
        pending_game_event_id: Some(11),
    };
    let output = process_events(&cursor, &vec![make_game_event(11, None)]);
    assert!(output.notifications.is_empty());
    assert_eq!(output.new_last_event_id, Some(10));
    assert_eq!(output.new_last_notified_event_id, Some(11));
    assert_eq!(output.new_pending_game_event_id, Some(11));
}

#[test]
fn advances_cursor_when_in_progress_game_completes() {
    let cursor = ListenerCursor {
        last_event_id: Some(10),
        last_notified_event_id: Some(10),
        pending_game_event_id: Some(11),
    };
    let events = vec![
        make_game_event(11, Some("2026-06-01T12:29:58Z")),
        make_lobby_event(12, "player-joined", "Bravo joined"),
    ];
    let output = process_events(&cursor, &events);
    assert_eq!(output.notifications.len(), 1);
    assert!(matches!(
        &output.notifications[0],
        NotificationAction::Image { event_id: 11, event_label, .. } if event_label == "场次结束"
    ));
    assert_eq!(output.new_last_event_id, Some(12));
    assert_eq!(output.new_last_notified_event_id, Some(12));
    assert_eq!(output.new_pending_game_event_id, None);
}

#[test]
fn match_disbanded_emits_text_and_stop() {
    let events = vec![
        make_lobby_event(10, "match-created", "Created"),
        make_disbanded_event(11),
        make_lobby_event(12, "player-joined", "Should not appear"),
    ];
    let output = process_events(&empty_cursor(), &events);
    assert_eq!(output.notifications.len(), 2);
    assert!(matches!(
        &output.notifications[1],
        NotificationAction::Text { event_id: 11, event_type, .. } if event_type == "match-disbanded"
    ));
    assert_eq!(output.stop_reason, Some(StopReason::MatchDisbanded));
    assert_eq!(output.new_last_event_id, Some(11));
    assert!(!output
        .notifications
        .iter()
        .any(|n| matches!(n, NotificationAction::Text { event_id: 12, .. })));
}

#[test]
fn skips_already_processed_events() {
    let cursor = ListenerCursor {
        last_event_id: Some(10),
        last_notified_event_id: Some(10),
        pending_game_event_id: None,
    };
    let events = vec![
        make_lobby_event(10, "match-created", "Already processed"),
        make_lobby_event(11, "player-joined", "New event"),
    ];
    let output = process_events(&cursor, &events);
    assert!(output.notifications.is_empty());
    assert_eq!(output.new_last_event_id, Some(11));
}

#[test]
fn empty_events_produces_no_actions() {
    let cursor = ListenerCursor {
        last_event_id: Some(10),
        last_notified_event_id: Some(10),
        pending_game_event_id: None,
    };
    let output = process_events(&cursor, &Vec::new());
    assert!(output.notifications.is_empty());
    assert_eq!(output.new_last_event_id, Some(10));
    assert_eq!(output.stop_reason, None);
}

#[test]
fn pending_game_with_no_new_events_keeps_pending() {
    let cursor = ListenerCursor {
        last_event_id: Some(10),
        last_notified_event_id: Some(10),
        pending_game_event_id: Some(11),
    };
    let output = process_events(&cursor, &Vec::new());
    assert!(output.notifications.is_empty());
    assert_eq!(output.new_pending_game_event_id, Some(11));
    assert_eq!(output.new_last_event_id, Some(10));
}

#[test]
fn reprocessing_with_produced_cursor_is_silent() {
    let events = vec![
        make_lobby_event(10, "match-created", "Created"),
        make_game_event(11, Some("2026-06-01T12:29:58Z")),
    ];
    let first = process_events(&empty_cursor(), &events);
    assert_eq!(first.notifications.len(), 2);
    let cursor = ListenerCursor {
        last_event_id: first.new_last_event_id,
        last_notified_event_id: first.new_last_notified_event_id,
        pending_game_event_id: first.new_pending_game_event_id,
    };
    let second = process_events(&cursor, &events);
    assert!(second.notifications.is_empty());
    assert_eq!(second.new_last_event_id, first.new_last_event_id);
}

#[test]
fn reprocessing_up_to_a_disband_is_silent() {
    let events = vec![
        make_lobby_event(10, "match-created", "Created"),
        make_disbanded_event(11),
        make_lobby_event(12, "match-created", "Late"),
    ];
    let first = process_events(&empty_cursor(), &events);
    assert_eq!(first.notifications.len(), 2);
    assert_eq!(first.stop_reason, Some(StopReason::MatchDisbanded));
    assert_eq!(first.new_last_event_id, Some(11));
    let cursor = ListenerCursor {
        last_event_id: first.new_last_event_id,
        last_notified_event_id: first.new_last_notified_event_id,
        pending_game_event_id: first.new_pending_game_event_id,
    };
    let second = process_events(&cursor, &events[..2].to_vec());
    assert!(second.notifications.is_empty());
    assert_eq!(second.new_last_event_id, Some(11));
    assert_eq!(second.stop_reason, None);
}

#[test]
fn started_card_comes_last_and_suppressed_events_stay_silent() {
    let events = vec![
        make_lobby_event(10, "player-joined", "Alpha joined"),
        make_lobby_event(11, "host-changed", "Alpha is host"),
        make_game_event(12, None),
        make_lobby_event(13, "match-created", "never reached"),
    ];
    let out = process_events(&empty_cursor(), &events);
    assert_eq!(out.notifications.len(), 1);
    assert!(matches!(
        &out.notifications[0],
        NotificationAction::Image { event_id: 12, event_label, .. } if event_label == "场次开始"
    ));
    assert_eq!(out.stop_reason, None);
}
