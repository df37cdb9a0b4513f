//! Decisions the poller makes around delivery: which notifications to send,
//! which user list a card is drawn from, how a delivered notification moves
//! the cursor, and what is stored once a batch has been handled. The poller
//! itself (fetching, rendering, sending) runs outside this crate and reports
//! each delivery's result back.

use vstd::prelude::*;
use crate::match_listener::state::{label_started, ListenerCursor, NotificationAction, StateMachineOutput, StopReason};
use crate::text::eq_str;

verus! {

/// Listener notification settings.
#[derive(Debug, Clone, Copy, PartialEq, Eq, Structural)]
pub struct MatchListenConfig {
    /// Most listeners one group may have active at once.
    pub max_per_group: u32,
    /// Seconds between polls.
    pub poll_interval_secs: u64,
    /// Announce games when they start.
    pub notify_on_new_game: bool,
    /// Announce games when they complete.
    pub notify_on_complete: bool,
}

/// The notification is about a game that has started but not finished.
pub open spec fn is_start_card(n: NotificationAction) -> bool {
    match n {
        NotificationAction::Text { .. } => false,
        NotificationAction::Image { game_ended, event_label, .. } => !game_ended || event_label@
            == label_started(),
    }
}

/// Whether the settings ask for this notification to be sent.
pub open spec fn should_emit_spec(cfg: MatchListenConfig, n: NotificationAction) -> bool {
    match n {
        NotificationAction::Text { .. } => true,
        NotificationAction::Image { .. } => if is_start_card(n) {
            cfg.notify_on_new_game
        } else {
            cfg.notify_on_complete
        },
    }
}

/// The cursor after the notification has been delivered (or deliberately skipped).
pub open spec fn acknowledge_spec(c: ListenerCursor, n: NotificationAction) -> ListenerCursor {
    match n {
        NotificationAction::Text { event_id, .. } => ListenerCursor {
            last_event_id: Some(event_id),
            last_notified_event_id: Some(event_id),
            ..c
        },
        NotificationAction::Image { event_id, .. } => if is_start_card(n) {
            ListenerCursor {
                last_notified_event_id: Some(event_id),
                pending_game_event_id: Some(event_id),
                ..c
            }
        } else {
            ListenerCursor {
                last_event_id: Some(event_id),
                last_notified_event_id: Some(event_id),
                pending_game_event_id: None,
            }
        },
    }
}

fn is_start_card_exec(n: &NotificationAction) -> (b: bool)
    ensures
        b == is_start_card(*n),
{
    match n {
        NotificationAction::Text { .. } => false,
        NotificationAction::Image { game_ended, event_label, .. } => !*game_ended || eq_str(
            event_label.as_str(),
            "场次开始",
        ),
    }
}

/// Whether the settings ask for this notification to be sent: lobby text
/// always; a game card when its kind (start or completion) is enabled.
pub fn should_emit_notification(cfg: &MatchListenConfig, notification: &NotificationAction) -> (b: bool)
    ensures
        b == should_emit_spec(*cfg, *notification),
{
    match notification {
        NotificationAction::Text { .. } => true,
        NotificationAction::Image { .. } => {
            if is_start_card_exec(notification) {
                cfg.notify_on_new_game
            } else {
                cfg.notify_on_complete
            }
        },
    }
}

/// Moves the cursor past a delivered notification. A started game stays
/// pending (it is announced again at completion); a completed game or a
/// lobby event advances the cursor.
pub fn apply_acknowledged_notification(cursor: &mut ListenerCursor, notification: &NotificationAction)
    ensures
        *final(cursor) == acknowledge_spec(*old(cursor), *notification),
{
    match notification {
        NotificationAction::Text { event_id, .. } => {
            cursor.last_event_id = Some(*event_id);
            cursor.last_notified_event_id = Some(*event_id);
        },
        NotificationAction::Image { event_id, .. } => {
            if is_start_card_exec(notification) {
                cursor.last_notified_event_id = Some(*event_id);
                cursor.pending_game_event_id = Some(*event_id);
            } else {
                cursor.last_event_id = Some(*event_id);
                cursor.last_notified_event_id = Some(*event_id);
                cursor.pending_game_event_id = None;
            }
        },
    }
}

/// Whether drawing the notification needs the match's player list: lobby
/// text, a started game, or a game with scores.
pub fn notification_needs_users(notification: &NotificationAction) -> (b: bool)
    ensures
        b == match *notification {
            NotificationAction::Text { .. } => true,
            NotificationAction::Image { game_ended, game_has_scores, .. } => !game_ended
                || game_has_scores,
        },
{
    match notification {
        NotificationAction::Text { .. } => true,
        NotificationAction::Image { game_ended, game_has_scores, .. } => !*game_ended
            || *game_has_scores,
    }
}

/// Whether the notification is a card for a game that has not ended.
pub fn notification_is_started_game(notification: &NotificationAction) -> (b: bool)
    ensures
        b == (*notification matches NotificationAction::Image { game_ended, .. } && !game_ended),
{
    match notification {
        NotificationAction::Image { game_ended, .. } => !*game_ended,
        _ => false,
    }
}

/// Which player list a notification is drawn with.
pub open spec fn effective_users_spec<T>(
    response_users: Seq<T>,
    fallback_users: Option<Seq<T>>,
    n: NotificationAction,
) -> Seq<T> {
    if (n matches NotificationAction::Image { game_ended, .. } && !game_ended) && (
    fallback_users matches Some(f) && f.len() > 0) {
        fallback_users.unwrap()
    } else if response_users.len() == 0 {
        match fallback_users {
            Some(f) => f,
            None => response_users,
        }
    } else {
        response_users
    }
}

/// The player list to draw a notification with: for a started game the
/// reconstructed roster when there is one; otherwise the users of this
/// response, falling back to the roster when the response has none.
pub fn effective_notification_users<'a, T>(
    response_users: &'a [T],
    fallback_users: Option<&'a [T]>,
    notification: &NotificationAction,
) -> (r: &'a [T])
    ensures
        r@ == effective_users_spec(
            response_users@,
            match fallback_users {
                Some(f) => Some(f@),
                None => None,
            },
            *notification,
        ),
{
    if notification_is_started_game(notification) {
        if let Some(users) = fallback_users {
            if users.len() > 0 {
                return users;
            }
        }
    }
    if response_users.len() == 0 {
        match fallback_users {
            Some(f) => f,
            None => response_users,
        }
    } else {
        response_users
    }
}

// ---------------------------------------------------------------------------
// Delivering a batch
// ---------------------------------------------------------------------------

/// Progress through a batch of notifications: which is next, whether a
/// delivery failed, and the cursor acknowledged so far.
#[derive(Debug, Clone, Copy)]
pub struct Delivery {
    /// Cursor after the notifications handled so far.
    pub acknowledged: ListenerCursor,
    /// Index of the next notification to handle.
    pub next: usize,
    /// A delivery failed; the rest of the batch waits for the next poll.
    pub failed: bool,
}

/// What is stored once a batch has been handled.
#[derive(Debug, Clone, Copy, PartialEq, Eq, Structural)]
pub struct ListenerUpdate {
    /// The cursor to store.
    pub cursor: ListenerCursor,
    /// The last-notified time should be touched (a new event was announced).
    pub touch_last_notified_at: bool,
    /// The listener should be stopped (the match was disbanded and everything went out).
    pub stop_listener: bool,
}

impl Delivery {
    /// The batch is handled from the first notification, with the stored cursor.
    pub fn start(cursor: &ListenerCursor) -> (d: Delivery)
        ensures
            d.acknowledged == *cursor,
            d.next == 0,
            !d.failed,
    {
        Delivery { acknowledged: *cursor, next: 0, failed: false }
    }

    /// Skips the notifications the settings leave unsent (acknowledging them)
    /// and returns the index of the next one to deliver, or `None` when the
    /// batch is done or a delivery failed.
    pub fn advance(&mut self, cfg: &MatchListenConfig, notes: &Vec<NotificationAction>) -> (r: Option<usize>)
        requires
            old(self).next <= notes.len(),
        ensures
            final(self).failed == old(self).failed,
            old(self).failed ==> r is None && *final(self) == *old(self),
            !old(self).failed ==> {
                &&& old(self).next <= final(self).next <= notes.len()
                &&& forall|k: int|
                    old(self).next <= k < final(self).next ==> !should_emit_spec(
                        *cfg,
                        #[trigger] notes@[k],
                    )
                &&& final(self).acknowledged == acknowledge_range(
                    old(self).acknowledged,
                    notes@,
                    old(self).next as int,
                    final(self).next as int,
                )
                &&& match r {
                    Some(i) => i == final(self).next && i < notes.len() && should_emit_spec(
                        *cfg,
                        notes@[i as int],
                    ),
                    None => final(self).next == notes.len(),
                }
            },
    {
        if self.failed {
            return None;
        }
        let ghost start = self.next;
        let ghost c0 = self.acknowledged;
        while self.next < notes.len()
            invariant
                start <= self.next <= notes.len(),
                !self.failed,
                !old(self).failed,
                start == old(self).next,
                c0 == old(self).acknowledged,
                forall|k: int| start <= k < self.next ==> !should_emit_spec(*cfg, #[trigger] notes@[k]),
                self.acknowledged == acknowledge_range(c0, notes@, start as int, self.next as int),
            decreases notes.len() - self.next,
        {
            let n = &notes[self.next];
            if should_emit_notification(cfg, n) {
                return Some(self.next);
            }
            apply_acknowledged_notification(&mut self.acknowledged, n);
            self.next = self.next + 1;
        }
        None
    }

    /// Records the result of delivering notification `next`: on success it is
    /// acknowledged and the batch goes on; on failure the batch stops there.
    pub fn report(&mut self, notes: &Vec<NotificationAction>, delivered: bool)
        requires
            old(self).next < notes.len(),
            !old(self).failed,
        ensures
            delivered ==> {
                &&& final(self).acknowledged == acknowledge_spec(
                    old(self).acknowledged,
                    notes@[old(self).next as int],
                )
                &&& final(self).next == old(self).next + 1
                &&& !final(self).failed
            },
            !delivered ==> final(self).acknowledged == old(self).acknowledged && final(self).next
                == old(self).next && final(self).failed,
    {
        if delivered {
            apply_acknowledged_notification(&mut self.acknowledged, &notes[self.next]);
            self.next = self.next + 1;
        } else {
            self.failed = true;
        }
    }

    /// What to store once the batch is over: the machine's cursor when every
    /// notification was handled, else the cursor acknowledged up to the
    /// failure (so the rest is retried after reconnecting).
    pub fn finish(&self, stored: &ListenerCursor, out: &StateMachineOutput) -> (u: ListenerUpdate)
        ensures
            u.cursor == (if self.failed {
                self.acknowledged
            } else {
                out.next_cursor()
            }),
            u.touch_last_notified_at == (u.cursor.last_notified_event_id
                != stored.last_notified_event_id),
            u.stop_listener == (!self.failed && out.stop_reason == Some(
                StopReason::MatchDisbanded,
            )),
    {
        let cursor = if self.failed {
            self.acknowledged
        } else {
            ListenerCursor {
                last_event_id: out.new_last_event_id,
                last_notified_event_id: out.new_last_notified_event_id,
                pending_game_event_id: out.new_pending_game_event_id,
            }
        };
        let stop = if self.failed {
            false
        } else {
            match out.stop_reason {
                Some(StopReason::MatchDisbanded) => true,
                None => false,
            }
        };
        assert(out.stop_reason is Some ==> out.stop_reason == Some(StopReason::MatchDisbanded));
        ListenerUpdate {
            cursor,
            touch_last_notified_at: cursor.last_notified_event_id != stored.last_notified_event_id,
            stop_listener: stop,
        }
    }
}

/// The cursor after acknowledging notifications `from..to`, one by one.
pub open spec fn acknowledge_range(
    c: ListenerCursor,
    notes: Seq<NotificationAction>,
    from: int,
    to: int,
) -> ListenerCursor
    decreases to - from,
{
    if to <= from {
        c
    } else {
        acknowledge_spec(acknowledge_range(c, notes, from, to - 1), notes[to - 1])
    }
}

} // verus!
