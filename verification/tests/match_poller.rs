use osubot::match_listener::notify::MatchUser;
use osubot::match_listener::poller::{
    apply_acknowledged_notification, effective_notification_users, should_emit_notification,
    Delivery, MatchListenConfig,
};
use osubot::match_listener::state::{
    process_events, EventGame, ListenerCursor, MatchEvent, NotificationAction,
};

fn user(id: u64, name: &str) -> MatchUser {
    MatchUser { id, username: name.to_string(), avatar_url: None }
}

fn started_notification() -> NotificationAction {
    NotificationAction::Image {
        event_id: 11,
        event_label: "场次开始".to_string(),
        played_at: "2026-06-01T12:00:00Z".to_string(),
        game_ended: false,
        game_has_scores: false,
    }
}

fn finished_notification() -> NotificationAction {
    NotificationAction::Image {
        event_id: 12,
        event_label: "场次结束".to_string(),
        played_at: "2026-06-01T12:30:00Z".to_string(),
        game_ended: true,
        game_has_scores: false,
    }
}

#[test]
fn should_emit_notification_honors_started_and_finished_flags() {
    let cfg = MatchListenConfig {
        max_per_group: 3,
        poll_interval_secs: 8,
        notify_on_new_game: false,
        notify_on_complete: true,
    };
    assert!(!should_emit_notification(&cfg, &started_notification()));
    assert!(should_emit_notification(&cfg, &finished_notification()));
}

#[test]
fn apply_acknowledged_notification_keeps_started_game_retriable_until_acknowledged() {
    let mut cursor = ListenerCursor {
        last_event_id: Some(10),
        last_notified_event_id: Some(10),
        pending_game_event_id: None,
    };
    apply_acknowledged_notification(&mut cursor, &started_notification());
    assert_eq!(cursor.last_event_id, Some(10));
    assert_eq!(cursor.last_notified_event_id, Some(11));
    assert_eq!(cursor.pending_game_event_id, Some(11));
}

#[test]
fn apply_acknowledged_notification_advances_completed_game_and_clears_pending() {
    let mut cursor = ListenerCursor {
        last_event_id: Some(10),
        last_notified_event_id: Some(10),
        pending_game_event_id: Some(11),
    };
    apply_acknowledged_notification(&mut cursor, &finished_notification());
    assert_eq!(cursor.last_event_id, Some(12));
    assert_eq!(cursor.last_notified_event_id, Some(12));
    assert_eq!(cursor.pending_game_event_id, None);
}

#[test]
fn effective_notification_users_prefers_response_users() {
    let response_users = vec![user(1, "Current")];
    let fallback_users = vec![user(2, "Fallback")];
    let notification = NotificationAction::Text {
        event_id: 1,
        event_type: "player-joined".to_string(),
        text: "Current joined".to_string(),
    };
    let users = effective_notification_users(&response_users, Some(&fallback_users), &notification);
    assert_eq!(users.len(), 1);
    assert_eq!(users[0].username, "Current");
}

#[test]
fn effective_notification_users_uses_fallback_when_incremental_users_empty() {
    let response_users: Vec<MatchUser> = Vec::new();
    let fallback_users = vec![user(2, "Fallback")];
    let notification = NotificationAction::Text {
        event_id: 1,
        event_type: "player-joined".to_string(),
        text: "Fallback joined".to_string(),
    };
    let users = effective_notification_users(&response_users, Some(&fallback_users), &notification);
    assert_eq!(users.len(), 1);
    assert_eq!(users[0].username, "Fallback");
}

#[test]
fn effective_notification_users_prefers_roster_for_started_game() {
    let response_users = vec![user(1, "Historic")];
    let fallback_users = vec![user(2, "CurrentParticipant")];
    let notification = started_notification();
    let users = effective_notification_users(&response_users, Some(&fallback_users), &notification);
    assert_eq!(users.len(), 1);
    assert_eq!(users[0].username, "CurrentParticipant");
}

#[test]
fn text_delivery_only_acknowledges_successful_send() {
    let mut acknowledged_cursor = ListenerCursor {
        last_event_id: Some(10),
        last_notified_event_id: Some(10),
        pending_game_event_id: None,
    };
    let notification = NotificationAction::Text {
        event_id: 11,
        event_type: "match-created".to_string(),
        text: "Created".to_string(),
    };
    let delivered = false;
    if delivered {
        apply_acknowledged_notification(&mut acknowledged_cursor, &notification);
    }
    assert_eq!(acknowledged_cursor.last_event_id, Some(10));
    assert_eq!(acknowledged_cursor.last_notified_event_id, Some(10));
}

#[test]
fn failed_delivery_stops_acknowledging() {
    let stored = ListenerCursor { last_event_id: Some(9), last_notified_event_id: Some(9), pending_game_event_id: None };
    let events = vec![
        MatchEvent {
            id: 10,
            timestamp: "t".to_string(),
            event_type: "match-created".to_string(),
            text: "Created".to_string(),
            game: None,
        },
        MatchEvent {
            id: 11,
            timestamp: "t".to_string(),
            event_type: "other".to_string(),
            text: "g".to_string(),
            game: Some(EventGame { end_time: Some("e".to_string()), has_scores: true }),
        },
    ];
    let out = process_events(&stored, &events);
    assert_eq!(out.notifications.len(), 2);
    let cfg = MatchListenConfig { max_per_group: 3, poll_interval_secs: 8, notify_on_new_game: true, notify_on_complete: true };
    let mut d = Delivery::start(&stored);
    let first = d.advance(&cfg, &out.notifications);
    assert_eq!(first, Some(0));
    d.report(&out.notifications, true);
    let second = d.advance(&cfg, &out.notifications);
    assert_eq!(second, Some(1));
    d.report(&out.notifications, false);
    let update = d.finish(&stored, &out);
    assert_eq!(update.cursor.last_event_id, Some(10));
    assert_eq!(update.cursor.last_notified_event_id, Some(10));
}
