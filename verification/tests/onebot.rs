use osubot::onebot::{
    cleanup_retention_secs, extract_message_and_mention, parse_onebot_message, AtTarget,
    EchoCounter, MessageBody, OneBotEvent, Segment,
};

#[test]
fn cleanup_retention_floors_at_thirty_seconds() {
    assert_eq!(cleanup_retention_secs(5), 30);
}

#[test]
fn cleanup_retention_exceeds_configured_timeout() {
    assert_eq!(cleanup_retention_secs(120), 125);
}

#[test]
fn cleanup_retention_handles_large_timeout() {
    assert_eq!(cleanup_retention_secs(300), 305);
}

#[test]
fn echo_ids_count_up() {
    let mut c = EchoCounter::new();
    assert_eq!(c.next_echo(), "0");
    assert_eq!(c.next_echo(), "1");
    assert_eq!(c.next_echo(), "2");
}

fn group_event(body: MessageBody) -> OneBotEvent {
    OneBotEvent {
        post_type: "message".to_string(),
        message_type: Some("group".to_string()),
        group_id: Some(100),
        user_id: Some(7),
        message: Some(body),
    }
}

#[test]
fn single_mention_is_kept() {
    let body = MessageBody::Segments(vec![
        Segment::Text(Some("!p ".to_string())),
        Segment::At(AtTarget::Text("12345".to_string())),
        Segment::Other,
        Segment::Text(Some("x".to_string())),
    ]);
    let msg = parse_onebot_message(&group_event(body)).unwrap();
    assert_eq!(msg.group_id, 100);
    assert_eq!(msg.user_id, 7);
    assert_eq!(msg.message, "!p x");
    assert_eq!(msg.mentioned_user_id, Some(12345));
}

#[test]
fn two_mentions_name_nobody() {
    let body = MessageBody::Segments(vec![
        Segment::At(AtTarget::Number(1)),
        Segment::At(AtTarget::Number(2)),
    ]);
    assert_eq!(extract_message_and_mention(&body), (String::new(), None));
    let body = MessageBody::Segments(vec![
        Segment::At(AtTarget::Text("all".to_string())),
        Segment::At(AtTarget::Number(2)),
    ]);
    assert_eq!(extract_message_and_mention(&body), (String::new(), Some(2)));
}

#[test]
fn non_group_events_are_ignored() {
    let mut ev = group_event(MessageBody::Plain("hi".to_string()));
    assert_eq!(parse_onebot_message(&ev).unwrap().message, "hi");
    ev.message_type = Some("private".to_string());
    assert!(parse_onebot_message(&ev).is_none());
    let mut ev = group_event(MessageBody::Plain("hi".to_string()));
    ev.post_type = "notice".to_string();
    assert!(parse_onebot_message(&ev).is_none());
    let mut ev = group_event(MessageBody::Plain("hi".to_string()));
    ev.group_id = None;
    assert!(parse_onebot_message(&ev).is_none());
}
