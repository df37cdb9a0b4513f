//! The OneBot side: which events are group messages, the text and the single
//! @mention a message carries, request echo ids, and how long a pending
//! request is kept.

use vstd::prelude::*;
use crate::text::{
    chars_of, dec_digits, eq_str, lemma_dec_digits_roundtrip, parse_i64,
    parse_i64_spec, push_str, string_of, u64_digits,
};

verus! {

/// A group message as the commands see it.
#[derive(Debug, Clone, PartialEq, Eq)]
pub struct QQMessage {
    pub group_id: i64,
    pub user_id: i64,
    pub message: String,
    pub mentioned_user_id: Option<i64>,
}

/// The `qq` of an `at` segment as it was written.
#[derive(Debug, Clone, PartialEq, Eq)]
pub enum AtTarget {
    /// A JSON integer that fits an `i64`.
    Number(i64),
    /// A JSON string.
    Text(String),
    /// Anything else, or missing.
    Other,
}

/// One segment of a message array.
#[derive(Debug, Clone, PartialEq, Eq)]
pub enum Segment {
    /// A `text` segment and its `data.text`, when that is a string.
    Text(Option<String>),
    /// An `at` segment.
    At(AtTarget),
    /// Any other segment.
    Other,
}

/// A message body: a plain string, a segment array, or anything else.
#[derive(Debug, Clone, PartialEq, Eq)]
pub enum MessageBody {
    Plain(String),
    Segments(Vec<Segment>),
    Unknown,
}

/// The fields of a OneBot event the bot reads.
#[derive(Debug, Clone, PartialEq, Eq)]
pub struct OneBotEvent {
    pub post_type: String,
    pub message_type: Option<String>,
    pub group_id: Option<i64>,
    pub user_id: Option<i64>,
    pub message: Option<MessageBody>,
}

/// The text of the text segments, joined.
pub open spec fn segments_text(segs: Seq<Segment>) -> Seq<char>
    decreases segs.len(),
{
    if segs.len() == 0 {
        Seq::empty()
    } else {
        segments_text(segs.drop_last()) + match segs.last() {
            Segment::Text(Some(t)) => t@,
            _ => Seq::empty(),
        }
    }
}

/// The user an `at` segment names, when it names one.
pub open spec fn at_user(a: AtTarget) -> Option<i64> {
    match a {
        AtTarget::Number(n) => Some(n),
        AtTarget::Text(s) => parse_i64_spec(s@),
        AtTarget::Other => None,
    }
}

/// The users the `at` segments name, in order.
pub open spec fn mentioned(segs: Seq<Segment>) -> Seq<i64>
    decreases segs.len(),
{
    if segs.len() == 0 {
        Seq::empty()
    } else {
        mentioned(segs.drop_last()) + match segs.last() {
            Segment::At(a) => match at_user(a) {
                Some(q) => seq![q],
                None => Seq::empty(),
            },
            _ => Seq::empty(),
        }
    }
}

/// The text of a message and the user it @mentions: a mention only when
/// exactly one user is mentioned.
pub open spec fn text_and_mention(body: MessageBody) -> (Seq<char>, Option<i64>) {
    match body {
        MessageBody::Plain(s) => (s@, None),
        MessageBody::Unknown => (Seq::empty(), None),
        MessageBody::Segments(v) => {
            let m = mentioned(v@);
            (segments_text(v@), if m.len() == 1 { Some(m[0]) } else { None })
        },
    }
}

/// The text of a message and the user it @mentions (see [`text_and_mention`]).
pub fn extract_message_and_mention(body: &MessageBody) -> (r: (String, Option<i64>))
    ensures
        (r.0@, r.1) == text_and_mention(*body),
{
    match body {
        MessageBody::Plain(s) => (string_of(&chars_of(s.as_str())), None),
        MessageBody::Unknown => (String::new(), None),
        MessageBody::Segments(segs) => {
            let mut text: Vec<char> = Vec::new();
            let mut ats: Vec<i64> = Vec::new();
            let mut i: usize = 0;
            while i < segs.len()
                invariant
                    i <= segs@.len(),
                    text@ == segments_text(segs@.take(i as int)),
                    ats@ == mentioned(segs@.take(i as int)),
                decreases segs.len() - i,
            {
                proof {
                    assert(segs@.take(i as int + 1).drop_last() =~= segs@.take(i as int));
                    assert(segs@.take(i as int + 1).last() == segs@[i as int]);
                }
                match &segs[i] {
                    Segment::Text(Some(t)) => {
                        push_str(&mut text, t.as_str());
                    },
                    Segment::At(a) => {
                        let q = match a {
                            AtTarget::Number(n) => Some(*n),
                            AtTarget::Text(s) => parse_i64(&chars_of(s.as_str())),
                            AtTarget::Other => None,
                        };
                        if let Some(q) = q {
                            ats.push(q);
                        }
                    },
                    _ => {},
                }
                proof {
                    assert(text@ =~= segments_text(segs@.take(i as int + 1)));
                    assert(ats@ =~= mentioned(segs@.take(i as int + 1)));
                }
                i = i + 1;
            }
            proof {
                assert(segs@.take(segs@.len() as int) =~= segs@);
            }
            let mention = if ats.len() == 1 {
                Some(ats[0])
            } else {
                None
            };
            (string_of(&text), mention)
        },
    }
}

/// A group message event with a group, a sender and a body becomes a
/// message; every other event is ignored.
pub open spec fn event_message(ev: OneBotEvent) -> Option<(i64, i64, Seq<char>, Option<i64>)> {
    if ev.post_type@ != "message"@ || !(ev.message_type matches Some(t) && t@ == "group"@) {
        None
    } else {
        match (ev.group_id, ev.user_id, ev.message) {
            (Some(g), Some(u), Some(body)) => {
                let (t, m) = text_and_mention(body);
                Some((g, u, t, m))
            },
            _ => None,
        }
    }
}

/// The message of a group message event (see [`event_message`]).
pub fn parse_onebot_message(ev: &OneBotEvent) -> (r: Option<QQMessage>)
    ensures
        match r {
            Some(m) => event_message(*ev) == Some((m.group_id, m.user_id, m.message@, m.mentioned_user_id)),
            None => event_message(*ev) is None,
        },
{
    if !eq_str(ev.post_type.as_str(), "message") {
        return None;
    }
    match &ev.message_type {
        Some(t) => {
            if !eq_str(t.as_str(), "group") {
                return None;
            }
        },
        None => {
            return None;
        },
    }
    let group_id = match ev.group_id {
        Some(g) => g,
        None => {
            return None;
        },
    };
    let user_id = match ev.user_id {
        Some(u) => u,
        None => {
            return None;
        },
    };
    let body = match &ev.message {
        Some(b) => b,
        None => {
            return None;
        },
    };
    let (message, mentioned_user_id) = extract_message_and_mention(body);
    Some(QQMessage { group_id, user_id, message, mentioned_user_id })
}

/// How long a pending request is kept before cleanup: the configured
/// timeout plus a margin of five seconds, and never less than thirty.
pub open spec fn retention_spec(timeout_secs: u64) -> int {
    let t = timeout_secs + 5;
    if t < 30 {
        30
    } else {
        t
    }
}

/// How long a pending request is kept before cleanup (see [`retention_spec`]).
pub fn cleanup_retention_secs(timeout_secs: u64) -> (r: u64)
    requires
        timeout_secs <= u64::MAX - 5,
    ensures
        r == retention_spec(timeout_secs),
{
    let t = timeout_secs + 5;
    if t < 30 {
        30
    } else {
        t
    }
}

/// A pending request outlives its own timeout: it is kept at least thirty
/// seconds and longer than the timeout.
pub proof fn law_retention_outlives_timeout(timeout_secs: u64)
    ensures
        retention_spec(timeout_secs) >= 30,
        retention_spec(timeout_secs) > timeout_secs,
{
}

/// The source of request echo ids: consecutive decimal numbers.
pub struct EchoCounter {
    next: u64,
}

impl EchoCounter {
    /// The number the next echo id carries.
    pub closed spec fn next_value(&self) -> u64 {
        self.next
    }

    /// A counter that starts at zero.
    pub fn new() -> (r: Self)
        ensures
            r.next_value() == 0,
    {
        EchoCounter { next: 0 }
    }

    /// The next echo id: the counter in decimal; the counter then moves on
    /// by one (wrapping at the end of `u64`).
    pub fn next_echo(&mut self) -> (r: String)
        ensures
            r@ == dec_digits(old(self).next_value() as nat),
            final(self).next_value() == if old(self).next_value() == u64::MAX {
                0
            } else {
                (old(self).next_value() + 1) as u64
            },
    {
        let n = self.next;
        self.next = if n == u64::MAX {
            0
        } else {
            n + 1
        };
        string_of(&u64_digits(n))
    }
}

/// Echo ids of different counter values differ, so two requests in flight
/// are never confused (as long as the counter has not wrapped).
pub proof fn law_echo_ids_distinct(a: u64, b: u64)
    requires
        a != b,
    ensures
        dec_digits(a as nat) != dec_digits(b as nat),
{
    lemma_dec_digits_roundtrip(a as nat);
    lemma_dec_digits_roundtrip(b as nat);
}

} // verus!
