use osubot::onebot::{MessageBody, Segment};
use osubot::upstream::{parse_bind_response_text, parse_send_msg_action, xfs_reply, yumu_url, XfsReply};

#[test]
fn test_parse_bind_response() {
    let text = "您已绑定 (18230719) ZnCookie，但是令牌依旧有效。\n如果要改绑，请回复 OK。";
    let binding = parse_bind_response_text(text).unwrap();
    assert_eq!(binding.0, 18230719);
    assert_eq!(binding.1, "ZnCookie");
}

#[test]
fn test_parse_bind_response_no_bind() {
    let text = "请在获取六位数的验证码后，回来发送 !bi 验证码 完成绑定。";
    assert!(parse_bind_response_text(text).is_none());
}

#[test]
fn test_parse_bind_response_revoked() {
    let text = "您已撤回绑定授权";
    assert!(parse_bind_response_text(text).is_none());
}

#[test]
fn bind_response_edge_cases() {
    assert_eq!(
        parse_bind_response_text("前缀您已绑定 ( 42 ) Name With Space,rest"),
        Some((42, "Name With Space".to_string()))
    );
    assert_eq!(parse_bind_response_text("您已绑定 (abc) Name"), None);
    assert_eq!(parse_bind_response_text("您已绑定 (42) ，"), None);
    assert_eq!(parse_bind_response_text("您已绑定 (42"), None);
}

fn text_segments(parts: &[&str]) -> MessageBody {
    MessageBody::Segments(parts.iter().map(|p| Segment::Text(Some(p.to_string()))).collect())
}

#[test]
fn test_parse_send_msg_action() {
    let body = text_segments(&["您已绑定 (18230719) ZnCookie，但是令牌依旧有效。\n如果要改绑，请回复 OK。"]);
    let text = parse_send_msg_action("send_group_msg", &body).unwrap();
    assert_eq!(
        text,
        "您已绑定 (18230719) ZnCookie，但是令牌依旧有效。\n如果要改绑，请回复 OK。"
    );
}

#[test]
fn test_parse_send_msg_action_non_match() {
    let body = MessageBody::Unknown;
    assert!(parse_send_msg_action("get_version_info", &body).is_none());
    assert!(parse_send_msg_action("send_msg", &text_segments(&[])).is_none());
}

#[test]
fn test_extract_text_from_message_array() {
    let body = text_segments(&["您已绑定 (18230719) ", "ZnCookie，但是令牌依旧有效。"]);
    let (text, _) = osubot::onebot::extract_message_and_mention(&body);
    assert_eq!(text, "您已绑定 (18230719) ZnCookie，但是令牌依旧有效。");
}

#[test]
fn xfs_replies() {
    assert_eq!(xfs_reply("get_status", "x"), XfsReply::Ignore);
    assert_eq!(xfs_reply("send_group_msg", "你未绑定 osu! 账号"), XfsReply::NoBinding);
    assert_eq!(
        xfs_reply("send_group_msg", " ZnCookie 的个人信息\r\nPP: 1"),
        XfsReply::Username("ZnCookie".to_string())
    );
    assert_eq!(xfs_reply("send_group_msg", "的个人信息"), XfsReply::NoBinding);
    assert_eq!(xfs_reply("send_group_msg", "hello\nZn的个人信息"), XfsReply::NoBinding);
}

#[test]
fn yumu_default_url() {
    assert_eq!(yumu_url(&None), "ws://121.41.63.60:11735/pub/onebotSocket");
    assert_eq!(yumu_url(&Some("ws://custom:1".to_string())), "ws://custom:1");
}
