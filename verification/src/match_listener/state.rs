//! The match listener's cursor machine.
//!
//! It takes the cursor stored for a listener and the events fetched for its
//! match, and answers which notifications to send and where the cursor moves.
//! Events are processed in the order given. The cursor advances past lobby
//! events and completed games; an in-progress game (no end time) holds the
//! cursor at that event until a later poll sees it completed, and its start
//! card is announced once.

use vstd::prelude::*;
use crate::text::{eq_str, owned};

verus! {

/// The listener's progress through a match, as stored between polls.
#[derive(Debug, Clone, Copy, PartialEq, Eq, Structural)]
pub struct ListenerCursor {
    pub last_event_id: Option<u64>,
    pub last_notified_event_id: Option<u64>,
    pub pending_game_event_id: Option<u64>,
}

/// What the listener reads of a played game inside an event.
#[derive(Debug, Clone)]
pub struct EventGame {
    /// When the game ended; `None` while it is still being played.
    pub end_time: Option<String>,
    /// Whether any player's score has been reported for the game.
    pub has_scores: bool,
}

/// One event of a multiplayer match, as the osu! API reports it.
#[derive(Debug, Clone)]
pub struct MatchEvent {
    pub id: u64,
    pub timestamp: String,
    pub event_type: String,
    pub text: String,
    pub game: Option<EventGame>,
}

/// A notification the poller should deliver.
#[derive(Debug, Clone)]
pub enum NotificationAction {
    /// A lobby event (player joined or left, host changed, match created or disbanded): text only.
    Text { event_id: u64, event_type: String, text: String },
    /// A game: render and send a card. The game itself is found again by `event_id`.
    Image {
        event_id: u64,
        event_label: String,
        played_at: String,
        game_ended: bool,
        game_has_scores: bool,
    },
}

/// Why the listener should stop.
#[derive(Debug, Clone, Copy, PartialEq, Eq, Structural)]
pub enum StopReason {
    /// The match was disbanded.
    MatchDisbanded,
}

/// The notifications to send and the cursor after a batch of events.
#[derive(Debug, Clone)]
pub struct StateMachineOutput {
    pub notifications: Vec<NotificationAction>,
    pub new_last_event_id: Option<u64>,
    pub new_last_notified_event_id: Option<u64>,
    pub new_pending_game_event_id: Option<u64>,
    pub stop_reason: Option<StopReason>,
}

/// How an event is handled.
#[derive(Debug, Clone, Copy, PartialEq, Eq, Structural)]
pub enum EventKind {
    Lobby,
    CompletedGame,
    InProgressGame,
    MatchDisbanded,
}

/// A notification as mathematical values.
pub enum NoteView {
    Text { event_id: u64, event_type: Seq<char>, text: Seq<char> },
    Image {
        event_id: u64,
        event_label: Seq<char>,
        played_at: Seq<char>,
        game_ended: bool,
        game_has_scores: bool,
    },
}

impl NotificationAction {
    /// This notification as mathematical values.
    pub open spec fn view_note(self) -> NoteView {
        match self {
            NotificationAction::Text { event_id, event_type, text } => NoteView::Text {
                event_id,
                event_type: event_type@,
                text: text@,
            },
            NotificationAction::Image {
                event_id,
                event_label,
                played_at,
                game_ended,
                game_has_scores,
            } => NoteView::Image {
                event_id,
                event_label: event_label@,
                played_at: played_at@,
                game_ended,
                game_has_scores,
            },
        }
    }

    /// The event this notification is about.
    pub open spec fn event_id_of(self) -> u64 {
        match self {
            NotificationAction::Text { event_id, .. } => event_id,
            NotificationAction::Image { event_id, .. } => event_id,
        }
    }
}

impl NoteView {
    /// The event this notification is about.
    pub open spec fn id(self) -> u64 {
        match self {
            NoteView::Text { event_id, .. } => event_id,
            NoteView::Image { event_id, .. } => event_id,
        }
    }
}

/// The output of the machine as mathematical values.
pub struct OutputModel {
    pub notes: Seq<NoteView>,
    pub last: Option<u64>,
    pub notified: Option<u64>,
    pub pending: Option<u64>,
    pub stop: Option<StopReason>,
}

impl StateMachineOutput {
    /// This output as mathematical values.
    pub open spec fn model(&self) -> OutputModel {
        OutputModel {
            notes: self.notifications@.map_values(|n: NotificationAction| n.view_note()),
            last: self.new_last_event_id,
            notified: self.new_last_notified_event_id,
            pending: self.new_pending_game_event_id,
            stop: self.stop_reason,
        }
    }

    /// The cursor to store when every notification was delivered.
    pub open spec fn next_cursor(&self) -> ListenerCursor {
        ListenerCursor {
            last_event_id: self.new_last_event_id,
            last_notified_event_id: self.new_last_notified_event_id,
            pending_game_event_id: self.new_pending_game_event_id,
        }
    }
}

/// The label of a finished game's card.
pub open spec fn label_finished() -> Seq<char> {
    "场次结束"@
}

/// The label of a started game's card.
pub open spec fn label_started() -> Seq<char> {
    "场次开始"@
}

/// Lobby events that advance the cursor without a broadcast.
pub open spec fn is_suppressed_lobby_event(event_type: Seq<char>) -> bool {
    event_type == "player-joined"@ || event_type == "player-left"@ || event_type == "host-changed"@
}

/// How an event is handled: a disband, a lobby event, or a game (completed or not).
pub open spec fn classify_spec(e: MatchEvent) -> EventKind {
    if e.event_type@ == "match-disbanded"@ {
        EventKind::MatchDisbanded
    } else {
        match e.game {
            None => EventKind::Lobby,
            Some(g) => if g.end_time is Some {
                EventKind::CompletedGame
            } else {
                EventKind::InProgressGame
            },
        }
    }
}

/// The event is at or before the stored cursor and is skipped.
pub open spec fn already_processed(cursor: ListenerCursor, e: MatchEvent) -> bool {
    cursor.last_event_id matches Some(l) && e.id <= l
}

/// Processing waits here: the stored pending game is still pending and this event is after it.
pub open spec fn blocked(cursor: ListenerCursor, acc: OutputModel, e: MatchEvent) -> bool {
    cursor.pending_game_event_id matches Some(p) && e.id > p && acc.pending is Some
}

/// The text notification for a lobby or disband event.
pub open spec fn text_note(e: MatchEvent) -> NoteView {
    NoteView::Text { event_id: e.id, event_type: e.event_type@, text: e.text@ }
}

/// The image notification for a game event, with the given label and time.
pub open spec fn image_note(e: MatchEvent, label: Seq<char>, played_at: Seq<char>) -> NoteView {
    NoteView::Image {
        event_id: e.id,
        event_label: label,
        played_at: played_at,
        game_ended: e.game.unwrap().end_time is Some,
        game_has_scores: e.game.unwrap().has_scores,
    }
}

/// The effect of handling one event that is neither skipped nor blocked, and
/// whether processing stops after it.
pub open spec fn step_spec(acc: OutputModel, e: MatchEvent) -> (OutputModel, bool) {
    match classify_spec(e) {
        EventKind::Lobby => (
            OutputModel {
                notes: if is_suppressed_lobby_event(e.event_type@) {
                    acc.notes
                } else {
                    acc.notes.push(text_note(e))
                },
                last: Some(e.id),
                notified: Some(e.id),
                ..acc
            },
            false,
        ),
        EventKind::CompletedGame => (
            OutputModel {
                notes: acc.notes.push(image_note(e, label_finished(), e.game.unwrap().end_time.unwrap()@)),
                last: Some(e.id),
                notified: Some(e.id),
                pending: if acc.pending == Some(e.id) {
                    None
                } else {
                    acc.pending
                },
                ..acc
            },
            false,
        ),
        EventKind::InProgressGame => (
            if acc.pending != Some(e.id) {
                OutputModel {
                    notes: acc.notes.push(image_note(e, label_started(), e.timestamp@)),
                    notified: Some(e.id),
                    pending: Some(e.id),
                    ..acc
                }
            } else {
                OutputModel { pending: Some(e.id), ..acc }
            },
            true,
        ),
        EventKind::MatchDisbanded => (
            OutputModel {
                notes: acc.notes.push(text_note(e)),
                last: Some(e.id),
                notified: Some(e.id),
                stop: Some(StopReason::MatchDisbanded),
                ..acc
            },
            true,
        ),
    }
}

/// Processing the events `events` in order, starting from `acc`.
pub open spec fn run_spec(cursor: ListenerCursor, events: Seq<MatchEvent>, acc: OutputModel) -> OutputModel
    decreases events.len(),
{
    if events.len() == 0 {
        acc
    } else {
        let e = events[0];
        let rest = events.subrange(1, events.len() as int);
        if already_processed(cursor, e) {
            run_spec(cursor, rest, acc)
        } else if blocked(cursor, acc, e) {
            acc
        } else {
            let (next, stop) = step_spec(acc, e);
            if stop {
                next
            } else {
                run_spec(cursor, rest, next)
            }
        }
    }
}

/// The output before any event is handled: no notifications, the stored cursor.
pub open spec fn initial_model(cursor: ListenerCursor) -> OutputModel {
    OutputModel {
        notes: Seq::empty(),
        last: cursor.last_event_id,
        notified: cursor.last_notified_event_id,
        pending: cursor.pending_game_event_id,
        stop: None,
    }
}

/// What `process_events` returns for a cursor and a batch of events.
pub open spec fn process_spec(cursor: ListenerCursor, events: Seq<MatchEvent>) -> OutputModel {
    run_spec(cursor, events, initial_model(cursor))
}

/// Lobby events whose broadcast is suppressed (the cursor still advances past them).
pub fn suppressed_lobby_event(event_type: &str) -> (b: bool)
    ensures
        b == is_suppressed_lobby_event(event_type@),
{
    eq_str(event_type, "player-joined") || eq_str(event_type, "player-left") || eq_str(
        event_type,
        "host-changed",
    )
}

/// How an event is handled.
pub fn classify_event(event: &MatchEvent) -> (k: EventKind)
    ensures
        k == classify_spec(*event),
{
    if eq_str(event.event_type.as_str(), "match-disbanded") {
        return EventKind::MatchDisbanded;
    }
    match &event.game {
        None => EventKind::Lobby,
        Some(game) => {
            if game.end_time.is_some() {
                EventKind::CompletedGame
            } else {
                EventKind::InProgressGame
            }
        },
    }
}

fn text_action(event: &MatchEvent) -> (n: NotificationAction)
    ensures
        n.view_note() == text_note(*event),
{
    NotificationAction::Text {
        event_id: event.id,
        event_type: event.event_type.clone(),
        text: event.text.clone(),
    }
}

/// Processes a batch of fetched match events against the stored cursor.
///
/// Events are handled in the order given. The cursor advances past lobby
/// events and completed games. At an in-progress game (no end time) processing
/// stops and `new_pending_game_event_id` is set: the cursor does not move past
/// that event until a later batch shows it completed.
pub fn process_events(cursor: &ListenerCursor, events: &Vec<MatchEvent>) -> (out: StateMachineOutput)
    ensures
        out.model() == process_spec(*cursor, events@),
{
    let mut out = StateMachineOutput {
        notifications: Vec::new(),
        new_last_event_id: cursor.last_event_id,
        new_last_notified_event_id: cursor.last_notified_event_id,
        new_pending_game_event_id: cursor.pending_game_event_id,
        stop_reason: None,
    };
    assert(out.model().notes =~= Seq::<NoteView>::empty());
    assert(out.model() == initial_model(*cursor));
    assert(events@.subrange(0, events.len() as int) =~= events@);
    let mut i: usize = 0;
    while i < events.len()
        invariant_except_break
            i <= events.len(),
            process_spec(*cursor, events@) == run_spec(
                *cursor,
                events@.subrange(i as int, events.len() as int),
                out.model(),
            ),
        ensures
            out.model() == process_spec(*cursor, events@),
        decreases events.len() - i,
    {
        let event = &events[i];
        let ghost before = out.model();
        let ghost rest = events@.subrange(i as int + 1, events.len() as int);
        assert(events@.subrange(i as int, events.len() as int).subrange(
            1,
            events.len() - i,
        ) =~= rest);
        assert(events@.subrange(i as int, events.len() as int)[0] == *event);
        if let Some(last) = cursor.last_event_id {
            if event.id <= last {
                i = i + 1;
                continue;
            }
        }
        if let Some(pending_id) = cursor.pending_game_event_id {
            if event.id > pending_id && out.new_pending_game_event_id.is_some() {
                break;
            }
        }
        match classify_event(event) {
            EventKind::Lobby => {
                if !suppressed_lobby_event(event.event_type.as_str()) {
                    out.notifications.push(text_action(event));
                }
                out.new_last_event_id = Some(event.id);
                out.new_last_notified_event_id = Some(event.id);
                assert(out.model().notes =~= step_spec(before, *event).0.notes);
            },
            EventKind::CompletedGame => {
                let game = event.game.as_ref().unwrap();
                let end_time = game.end_time.as_ref().unwrap();
                out.notifications.push(
                    NotificationAction::Image {
                        event_id: event.id,
                        event_label: owned("场次结束"),
                        played_at: end_time.clone(),
                        game_ended: true,
                        game_has_scores: game.has_scores,
                    },
                );
                out.new_last_event_id = Some(event.id);
                out.new_last_notified_event_id = Some(event.id);
                if out.new_pending_game_event_id == Some(event.id) {
                    out.new_pending_game_event_id = None;
                }
                assert(out.model().notes =~= step_spec(before, *event).0.notes);
            },
            EventKind::InProgressGame => {
                let game = event.game.as_ref().unwrap();
                if out.new_pending_game_event_id != Some(event.id) {
                    out.notifications.push(
                        NotificationAction::Image {
                            event_id: event.id,
                            event_label: owned("场次开始"),
                            played_at: event.timestamp.clone(),
                            game_ended: false,
                            game_has_scores: game.has_scores,
                        },
                    );
                    out.new_last_notified_event_id = Some(event.id);
                }
                out.new_pending_game_event_id = Some(event.id);
                assert(out.model().notes =~= step_spec(before, *event).0.notes);
                break;
            },
            EventKind::MatchDisbanded => {
                out.notifications.push(text_action(event));
                out.new_last_event_id = Some(event.id);
                out.new_last_notified_event_id = Some(event.id);
                out.stop_reason = Some(StopReason::MatchDisbanded);
                assert(out.model().notes =~= step_spec(before, *event).0.notes);
                break;
            },
        }
        i = i + 1;
    }
    out
}

} // verus!

verus! {

/// Event ids strictly increase along the batch (the order the API returns them in).
pub open spec fn ids_increasing(events: Seq<MatchEvent>) -> bool {
    forall|i: int, j: int| 0 <= i < j < events.len() ==> #[trigger] events[i].id < #[trigger] events[j].id
}

/// `a` is at least `b`, where `None` is below every id.
pub open spec fn opt_ge(a: Option<u64>, b: Option<u64>) -> bool {
    b matches Some(y) ==> (a matches Some(x) && x >= y)
}

/// The cursor the poller stores after an output whose notifications all went out.
pub open spec fn cursor_of(m: OutputModel) -> ListenerCursor {
    ListenerCursor {
        last_event_id: m.last,
        last_notified_event_id: m.notified,
        pending_game_event_id: m.pending,
    }
}

/// Conditions under which an accumulated output is consistent with the stored
/// cursor and the events still to come.
pub open spec fn acc_consistent(cursor: ListenerCursor, events: Seq<MatchEvent>, acc: OutputModel) -> bool {
    &&& (acc.pending is None || acc.pending == cursor.pending_game_event_id)
    &&& opt_ge(acc.last, cursor.last_event_id)
    &&& forall|k: int|
        0 <= k < events.len() && !already_processed(cursor, #[trigger] events[k]) ==> (
        acc.last matches Some(a) ==> events[k].id > a)
}

proof fn lemma_run_last_monotone(cursor: ListenerCursor, events: Seq<MatchEvent>, acc: OutputModel)
    requires
        ids_increasing(events),
        acc_consistent(cursor, events, acc),
    ensures
        opt_ge(run_spec(cursor, events, acc).last, acc.last),
        opt_ge(run_spec(cursor, events, acc).last, cursor.last_event_id),
    decreases events.len(),
{
    if events.len() > 0 {
        let e = events[0];
        let rest = events.subrange(1, events.len() as int);
        assert forall|k: int| 0 <= k < rest.len() implies #[trigger] rest[k] == events[k + 1] by {}
        if already_processed(cursor, e) {
            lemma_run_last_monotone(cursor, rest, acc);
        } else if blocked(cursor, acc, e) {
        } else {
            let (next, stop) = step_spec(acc, e);
            if !stop {
                assert(acc_consistent(cursor, rest, next)) by {
                    assert forall|k: int|
                        0 <= k < rest.len() && !already_processed(cursor, #[trigger] rest[k]) implies (
                    next.last matches Some(a) ==> rest[k].id > a) by {
                        assert(events[0].id < events[k + 1].id);
                    }
                }
                lemma_run_last_monotone(cursor, rest, next);
            }
        }
    }
}

/// Skipping: events at or before the cursor leave the output unchanged.
proof fn lemma_rerun_fixpoint(cursor: ListenerCursor, events: Seq<MatchEvent>, acc: OutputModel)
    requires
        ids_increasing(events),
        acc_consistent(cursor, events, acc),
        run_spec(cursor, events, acc).stop is None,
    ensures
        ({
            let c2 = cursor_of(run_spec(cursor, events, acc));
            run_spec(c2, events, initial_model(c2)) == initial_model(c2)
        }),
    decreases events.len(),
{
    let r = run_spec(cursor, events, acc);
    let c2 = cursor_of(r);
    let init2 = initial_model(c2);
    if events.len() > 0 {
        let e = events[0];
        let rest = events.subrange(1, events.len() as int);
        assert forall|k: int| 0 <= k < rest.len() implies #[trigger] rest[k] == events[k + 1] by {}
        if already_processed(cursor, e) {
            lemma_rerun_fixpoint(cursor, rest, acc);
            lemma_run_last_monotone(cursor, rest, acc);
            assert(already_processed(c2, e));
        } else if blocked(cursor, acc, e) {
            assert(r == acc);
            assert(!already_processed(c2, e));
            assert(blocked(c2, init2, e));
        } else {
            let (next, stop) = step_spec(acc, e);
            if stop {
                assert(classify_spec(e) == EventKind::InProgressGame);
                assert(!already_processed(c2, e));
                assert(!blocked(c2, init2, e));
                assert(init2.pending == Some(e.id));
                assert(step_spec(init2, e).0 == init2);
            } else {
                assert(acc_consistent(cursor, rest, next)) by {
                    assert forall|k: int|
                        0 <= k < rest.len() && !already_processed(cursor, #[trigger] rest[k]) implies (
                    next.last matches Some(a) ==> rest[k].id > a) by {
                        assert(events[0].id < events[k + 1].id);
                    }
                }
                lemma_rerun_fixpoint(cursor, rest, next);
                lemma_run_last_monotone(cursor, rest, next);
                assert(already_processed(c2, e));
            }
        }
    }
}

/// Re-running a batch against the cursor it produced announces nothing and
/// moves nothing: once a batch's notifications are delivered and its cursor
/// stored, polling the same events again is a no-op. (When the batch ends in a
/// disband, events after the disband were never looked at, so this is stated
/// for batches that did not stop.)
pub proof fn law_reprocessing_is_noop(cursor: ListenerCursor, events: Seq<MatchEvent>)
    requires
        ids_increasing(events),
        process_spec(cursor, events).stop is None,
    ensures
        ({
            let c2 = cursor_of(process_spec(cursor, events));
            process_spec(c2, events) == initial_model(c2) && process_spec(c2, events).notes.len()
                == 0
        }),
{
    lemma_rerun_fixpoint(cursor, events, initial_model(cursor));
}

proof fn lemma_disband_index(cursor: ListenerCursor, events: Seq<MatchEvent>, acc: OutputModel) -> (j: int)
    requires
        acc.stop is None,
        run_spec(cursor, events, acc).stop is Some,
    ensures
        0 <= j < events.len(),
        classify_spec(events[j]) == EventKind::MatchDisbanded,
        run_spec(cursor, events, acc).last == Some(events[j].id),
    decreases events.len(),
{
    let e = events[0];
    let rest = events.subrange(1, events.len() as int);
    if already_processed(cursor, e) {
        let j = lemma_disband_index(cursor, rest, acc);
        assert(rest[j] == events[j + 1]);
        j + 1
    } else if blocked(cursor, acc, e) {
        0
    } else {
        let (next, stop) = step_spec(acc, e);
        if stop {
            0
        } else {
            let j = lemma_disband_index(cursor, rest, next);
            assert(rest[j] == events[j + 1]);
            j + 1
        }
    }
}

proof fn lemma_all_skipped(cursor: ListenerCursor, events: Seq<MatchEvent>, acc: OutputModel)
    requires
        forall|i: int| 0 <= i < events.len() ==> already_processed(cursor, #[trigger] events[i]),
    ensures
        run_spec(cursor, events, acc) == acc,
    decreases events.len(),
{
    if events.len() > 0 {
        let rest = events.subrange(1, events.len() as int);
        assert forall|i: int| 0 <= i < rest.len() implies already_processed(cursor, #[trigger] rest[i]) by {
            assert(rest[i] == events[i + 1]);
        }
        assert(already_processed(cursor, events[0]));
        lemma_all_skipped(cursor, rest, acc);
    }
}

/// A batch that ends in a disband leaves the cursor on the disband event, and
/// polling the events up to the disband again announces nothing and moves
/// nothing. (Events after the disband were never looked at.)
pub proof fn law_reprocessing_after_disband(cursor: ListenerCursor, events: Seq<MatchEvent>)
    requires
        ids_increasing(events),
        process_spec(cursor, events).stop is Some,
    ensures
        exists|j: int|
            0 <= j < events.len() && classify_spec(events[j]) == EventKind::MatchDisbanded
                && cursor_of(process_spec(cursor, events)).last_event_id == Some(#[trigger] events[j].id)
                && process_spec(cursor_of(process_spec(cursor, events)), events.take(j + 1))
                == initial_model(cursor_of(process_spec(cursor, events))),
{
    let j = lemma_disband_index(cursor, events, initial_model(cursor));
    let c2 = cursor_of(process_spec(cursor, events));
    let pre = events.take(j + 1);
    assert forall|i: int| 0 <= i < pre.len() implies already_processed(c2, #[trigger] pre[i]) by {
        assert(pre[i] == events[i]);
        if i < j {
            assert(events[i].id < events[j].id);
        }
    }
    lemma_all_skipped(c2, pre, initial_model(c2));
}

} // verus!

verus! {

/// Every note in `notes` is about an event after the stored cursor.
pub open spec fn notes_after(notes: Seq<NoteView>, last: Option<u64>) -> bool {
    forall|k: int| 0 <= k < notes.len() ==> (last matches Some(l) ==> #[trigger] notes[k].id() > l)
}

/// Note ids strictly increase, and all are at most `bound` when it is given.
pub open spec fn notes_increasing(notes: Seq<NoteView>) -> bool {
    forall|i: int, j: int| 0 <= i < j < notes.len() ==> #[trigger] notes[i].id() < #[trigger] notes[j].id()
}

proof fn lemma_run_general(cursor: ListenerCursor, events: Seq<MatchEvent>, acc: OutputModel)
    requires
        notes_after(acc.notes, cursor.last_event_id),
        opt_ge(acc.last, cursor.last_event_id),
    ensures
        notes_after(run_spec(cursor, events, acc).notes, cursor.last_event_id),
        opt_ge(run_spec(cursor, events, acc).last, cursor.last_event_id),
        acc.notes.is_prefix_of(run_spec(cursor, events, acc).notes),
        run_spec(cursor, events, acc).stop is Some && acc.stop is None ==> ({
            let n = run_spec(cursor, events, acc).notes;
            &&& n.len() > 0
            &&& n.last() matches NoteView::Text { event_type, .. } && event_type == "match-disbanded"@
        }),
    decreases events.len(),
{
    if events.len() > 0 {
        let e = events[0];
        let rest = events.subrange(1, events.len() as int);
        if already_processed(cursor, e) {
            lemma_run_general(cursor, rest, acc);
        } else if blocked(cursor, acc, e) {
        } else {
            let (next, stop) = step_spec(acc, e);
            assert(notes_after(next.notes, cursor.last_event_id)) by {
                assert forall|k: int| 0 <= k < next.notes.len() implies (cursor.last_event_id matches Some(
                    l,
                ) ==> #[trigger] next.notes[k].id() > l) by {
                    if k < acc.notes.len() {
                        assert(next.notes[k] == acc.notes[k]);
                    }
                }
            }
            if !stop {
                lemma_run_general(cursor, rest, next);
                assert(acc.notes.is_prefix_of(next.notes));
            }
        }
    }
}

proof fn lemma_run_increasing(cursor: ListenerCursor, events: Seq<MatchEvent>, acc: OutputModel)
    requires
        ids_increasing(events),
        notes_increasing(acc.notes),
        forall|k: int, m: int|
            0 <= k < acc.notes.len() && 0 <= m < events.len() ==> #[trigger] acc.notes[k].id()
                < #[trigger] events[m].id,
    ensures
        notes_increasing(run_spec(cursor, events, acc).notes),
    decreases events.len(),
{
    if events.len() > 0 {
        let e = events[0];
        let rest = events.subrange(1, events.len() as int);
        assert forall|k: int| 0 <= k < rest.len() implies #[trigger] rest[k] == events[k + 1] by {}
        if already_processed(cursor, e) {
            lemma_run_increasing(cursor, rest, acc);
        } else if blocked(cursor, acc, e) {
        } else {
            let (next, stop) = step_spec(acc, e);
            assert forall|k: int| 0 <= k < next.notes.len() implies next.notes[k].id() <= e.id by {
                if k < acc.notes.len() {
                    assert(next.notes[k] == acc.notes[k]);
                    assert(acc.notes[k].id() < events[0].id);
                }
            }
            assert(notes_increasing(next.notes)) by {
                assert forall|i: int, j: int| 0 <= i < j < next.notes.len() implies #[trigger] next.notes[i].id()
                    < #[trigger] next.notes[j].id() by {
                    if j < acc.notes.len() {
                        assert(next.notes[i] == acc.notes[i]);
                        assert(next.notes[j] == acc.notes[j]);
                    } else {
                        assert(next.notes[i] == acc.notes[i]);
                        assert(acc.notes[i].id() < events[0].id);
                    }
                }
            }
            if !stop {
                assert forall|k: int, m: int|
                    0 <= k < next.notes.len() && 0 <= m < rest.len() implies #[trigger] next.notes[k].id()
                        < #[trigger] rest[m].id by {
                    assert(next.notes[k].id() <= e.id);
                    assert(events[0].id < events[m + 1].id);
                }
                lemma_run_increasing(cursor, rest, next);
            }
        }
    }
}

/// Events at or before the stored cursor are never announced again, and the
/// cursor never moves back.
pub proof fn law_no_replay_and_monotone_cursor(cursor: ListenerCursor, events: Seq<MatchEvent>)
    ensures
        notes_after(process_spec(cursor, events).notes, cursor.last_event_id),
        opt_ge(process_spec(cursor, events).last, cursor.last_event_id),
{
    lemma_run_general(cursor, events, initial_model(cursor));
}

/// Notifications come out in event order: for a batch in id order, their ids strictly increase.
pub proof fn law_notifications_in_event_order(cursor: ListenerCursor, events: Seq<MatchEvent>)
    requires
        ids_increasing(events),
    ensures
        notes_increasing(process_spec(cursor, events).notes),
{
    lemma_run_increasing(cursor, events, initial_model(cursor));
}

/// A stop is reported only together with the disband notice, which is the last notification.
pub proof fn law_stop_follows_disband(cursor: ListenerCursor, events: Seq<MatchEvent>)
    requires
        process_spec(cursor, events).stop is Some,
    ensures
        ({
            let n = process_spec(cursor, events).notes;
            &&& n.len() > 0
            &&& n.last() matches NoteView::Text { event_type, .. } && event_type == "match-disbanded"@
        }),
{
    lemma_run_general(cursor, events, initial_model(cursor));
}

/// A note that may stand anywhere in a batch's output: a lobby text that
/// is neither suppressed nor the disband notice, or a finished game's card.
pub open spec fn plain_note(n: NoteView) -> bool {
    match n {
        NoteView::Text { event_type, .. } => !is_suppressed_lobby_event(event_type) && event_type != "match-disbanded"@,
        NoteView::Image { event_label, .. } => event_label == label_finished(),
    }
}

/// Every note of `notes` is plain.
pub open spec fn all_plain(notes: Seq<NoteView>) -> bool {
    forall|i: int| 0 <= i < notes.len() ==> plain_note(#[trigger] notes[i])
}

/// A started game's card.
pub open spec fn is_start_card(n: NoteView) -> bool {
    n matches NoteView::Image { event_label, .. } && event_label == label_started()
}

/// The disband notice.
pub open spec fn is_disband_note(n: NoteView) -> bool {
    n matches NoteView::Text { event_type, .. } && event_type == "match-disbanded"@
}

proof fn lemma_run_shape(cursor: ListenerCursor, events: Seq<MatchEvent>, acc: OutputModel)
    requires
        acc.stop is None,
        all_plain(acc.notes),
    ensures
        ({
            let r = run_spec(cursor, events, acc);
            if r.stop is Some {
                r.notes.len() > 0 && all_plain(r.notes.drop_last()) && is_disband_note(r.notes.last())
            } else {
                all_plain(r.notes) || (r.notes.len() > 0 && all_plain(r.notes.drop_last()) && is_start_card(r.notes.last()))
            }
        }),
    decreases events.len(),
{
    if events.len() > 0 {
        let e = events[0];
        let rest = events.subrange(1, events.len() as int);
        if already_processed(cursor, e) {
            lemma_run_shape(cursor, rest, acc);
        } else if blocked(cursor, acc, e) {
        } else {
            let (next, stop) = step_spec(acc, e);
            match classify_spec(e) {
                EventKind::Lobby => {
                    assert(all_plain(next.notes)) by {
                        if !is_suppressed_lobby_event(e.event_type@) {
                            assert forall|i: int| 0 <= i < next.notes.len() implies plain_note(#[trigger] next.notes[i]) by {
                                if i < acc.notes.len() {
                                    assert(next.notes[i] == acc.notes[i]);
                                }
                            }
                        }
                    }
                    lemma_run_shape(cursor, rest, next);
                },
                EventKind::CompletedGame => {
                    assert(all_plain(next.notes)) by {
                        assert forall|i: int| 0 <= i < next.notes.len() implies plain_note(#[trigger] next.notes[i]) by {
                            if i < acc.notes.len() {
                                assert(next.notes[i] == acc.notes[i]);
                            }
                        }
                    }
                    lemma_run_shape(cursor, rest, next);
                },
                EventKind::InProgressGame => {
                    if acc.pending != Some(e.id) {
                        assert(next.notes.drop_last() =~= acc.notes);
                    }
                },
                EventKind::MatchDisbanded => {
                    assert(next.notes.drop_last() =~= acc.notes);
                },
            }
        }
    }
}

proof fn lemma_note_texts()
    ensures
        label_started() != label_finished(),
        !is_suppressed_lobby_event("match-disbanded"@),
{
    reveal_strlit("场次开始");
    reveal_strlit("场次结束");
    reveal_strlit("match-disbanded");
    reveal_strlit("player-joined");
    reveal_strlit("player-left");
    reveal_strlit("host-changed");
    assert(label_started()[2] != label_finished()[2]);
    assert("match-disbanded"@.len() == 15);
    assert("match-disbanded"@ != "player-joined"@ && "match-disbanded"@ != "player-left"@ && "match-disbanded"@ != "host-changed"@) by {
        assert("player-joined"@.len() == 13);
        assert("player-left"@.len() == 11);
        assert("host-changed"@.len() == 12);
    }
}

/// The shape of a batch's notifications: suppressed lobby events (player
/// joined or left, host changed) are never announced; a started game's card
/// comes at most once, and only as the last notification; and processing
/// stops exactly when the last notification is the disband notice.
pub proof fn law_notification_shape(cursor: ListenerCursor, events: Seq<MatchEvent>)
    ensures
        ({
            let r = process_spec(cursor, events);
            let n = r.notes;
            &&& forall|i: int| 0 <= i < n.len() ==> (#[trigger] n[i] matches NoteView::Text { event_type, .. }
                ==> !is_suppressed_lobby_event(event_type))
            &&& forall|i: int| 0 <= i < n.len() && is_start_card(#[trigger] n[i]) ==> i == n.len() - 1
            &&& (r.stop is Some <==> (n.len() > 0 && is_disband_note(n.last())))
        }),
{
    let r = process_spec(cursor, events);
    let n = r.notes;
    assert(all_plain(initial_model(cursor).notes));
    lemma_run_shape(cursor, events, initial_model(cursor));
    lemma_note_texts();
    assert forall|i: int| 0 <= i < n.len() implies (#[trigger] n[i] matches NoteView::Text { event_type, .. }
        ==> !is_suppressed_lobby_event(event_type)) by {
        if i < n.len() - 1 {
            assert(n.drop_last()[i] == n[i]);
        }
    }
    assert forall|i: int| 0 <= i < n.len() && is_start_card(#[trigger] n[i]) implies i == n.len() - 1 by {
        if i < n.len() - 1 {
            assert(n.drop_last()[i] == n[i]);
            assert(plain_note(n.drop_last()[i]));
        }
    }
    if r.stop is None && n.len() > 0 {
        if all_plain(n) {
            assert(plain_note(n[n.len() - 1]));
        }
    }
}

} // verus!
