//! The pure parts of the `!ml` command: whether a stored listener still
//! counts as active, where a new listener's cursor starts, and the status
//! summary of a match.

use vstd::prelude::*;
use crate::match_listener::state::{MatchEvent, ListenerCursor};
use crate::flows::Lookup;
use crate::reply::{Reply, reply_to, reply_view, with_sub, qq_reply};
use crate::text::{chars_of, dec_digits, i64_chars, int_to_dec, push_all, push_str, string_of, trim, trim_spec, u64_digits};

verus! {

/// A listener as stored: which match, for which group, and its progress.
#[derive(Debug, Clone)]
pub struct MatchListener {
    pub match_id: i64,
    pub group_id: i64,
    pub creator_qq: i64,
    pub match_name: String,
    pub last_event_id: Option<i64>,
    pub last_notified_event_id: Option<i64>,
    pub pending_game_event_id: Option<i64>,
    /// Unix seconds.
    pub created_at: i64,
    /// Unix seconds after which the listener lapses.
    pub expires_at: i64,
    pub active: bool,
    /// Unix seconds of the last announcement, if any.
    pub last_notified_at: Option<i64>,
}

/// What the listener reads of a fetched match.
#[derive(Debug, Clone)]
pub struct MatchResponse {
    pub match_name: String,
    /// The match has ended.
    pub ended: bool,
    /// Number of users the response lists.
    pub user_count: usize,
    pub latest_event_id: u64,
    pub events: Vec<MatchEvent>,
}

/// Where a new listener's cursor starts.
#[derive(Debug, Clone, Copy, PartialEq, Eq, Structural)]
pub struct InitialMatchCursor {
    pub last_event_id: Option<i64>,
    pub last_notified_event_id: Option<i64>,
}

/// A listener counts as active while it is marked active and has not expired (`expires_at >= now`).
pub fn is_listener_effectively_active(listener: &MatchListener, now: i64) -> (b: bool)
    ensures
        b == (listener.active && listener.expires_at >= now),
{
    listener.active && listener.expires_at >= now
}

/// The id of the `n`-th event (from 0) that carries a game.
pub open spec fn nth_game_event(events: Seq<MatchEvent>, n: int) -> Option<u64>
    decreases events.len(),
{
    if events.len() == 0 || n < 0 {
        None
    } else if events[0].game is Some {
        if n == 0 {
            Some(events[0].id)
        } else {
            nth_game_event(events.subrange(1, events.len() as int), n - 1)
        }
    } else {
        nth_game_event(events.subrange(1, events.len() as int), n)
    }
}

/// The id of the last event whose game has not ended.
pub open spec fn last_in_progress(events: Seq<MatchEvent>) -> Option<u64>
    decreases events.len(),
{
    if events.len() == 0 {
        None
    } else {
        let e = events.last();
        if e.game matches Some(g) && g.end_time is None {
            Some(e.id)
        } else {
            last_in_progress(events.drop_last())
        }
    }
}

/// Where a new listener starts: after the `skip_rounds`-th game when that
/// many games exist; else just before a game still in progress, so that game
/// is announced; else at the latest event.
pub open spec fn initial_cursor_spec(r: MatchResponse, skip_rounds: u32) -> Option<i64> {
    if skip_rounds > 0 && nth_game_event(r.events@, skip_rounds - 1) is Some {
        Some(nth_game_event(r.events@, skip_rounds - 1).unwrap() as i64)
    } else if last_in_progress(r.events@) is Some {
        let id = last_in_progress(r.events@).unwrap() as i64;
        Some(if id == i64::MIN { id } else { (id - 1) as i64 })
    } else {
        Some(r.latest_event_id as i64)
    }
}

#[verifier::truncate]
fn id_as_i64(id: u64) -> (r: i64)
    ensures
        r == id as i64,
{
    id as i64
}

/// The starting cursor for a new listener on this match.
pub fn initial_cursor_from_response(response: &MatchResponse, skip_rounds: u32) -> (c: InitialMatchCursor)
    ensures
        c.last_event_id == initial_cursor_spec(*response, skip_rounds),
        c.last_notified_event_id == c.last_event_id,
{
    let events = &response.events;
    assert(events@.subrange(0, events.len() as int) =~= events@);
    if skip_rounds > 0 {
        let target = skip_rounds - 1;
        let mut seen: u32 = 0;
        let mut i: usize = 0;
        while i < events.len()
            invariant
                i <= events.len(),
                seen <= target,
                target == skip_rounds - 1,
                events == &response.events,
                nth_game_event(events@, target as int) == nth_game_event(
                    events@.subrange(i as int, events.len() as int),
                    target - seen,
                ),
            decreases events.len() - i,
        {
            assert(events@.subrange(i as int, events.len() as int).subrange(1, events.len() - i)
                =~= events@.subrange(i + 1, events.len() as int));
            assert(events@.subrange(i as int, events.len() as int)[0] == events@[i as int]);
            if events[i].game.is_some() {
                if seen == target {
                    let id = id_as_i64(events[i].id);
                    return InitialMatchCursor { last_event_id: Some(id), last_notified_event_id: Some(id) };
                }
                seen = seen + 1;
            }
            i = i + 1;
        }
        assert(nth_game_event(events@.subrange(i as int, events.len() as int), target - seen) is None);
    }
    let mut j: usize = events.len();
    while j > 0
        invariant
            j <= events.len(),
            events == &response.events,
            skip_rounds > 0 ==> nth_game_event(events@, skip_rounds - 1) is None,
            last_in_progress(events@) == last_in_progress(events@.subrange(0, j as int)),
        decreases j,
    {
        assert(events@.subrange(0, j as int).drop_last() =~= events@.subrange(0, j - 1));
        assert(events@.subrange(0, j as int).last() == events@[j - 1]);
        let e = &events[j - 1];
        let in_progress = match &e.game {
            Some(g) => g.end_time.is_none(),
            None => false,
        };
        if in_progress {
            let id = id_as_i64(e.id);
            let before = if id == i64::MIN { id } else { id - 1 };
            return InitialMatchCursor { last_event_id: Some(before), last_notified_event_id: Some(before) };
        }
        j = j - 1;
    }
    assert(events@.subrange(0, 0) =~= Seq::<MatchEvent>::empty());
    let latest = id_as_i64(response.latest_event_id);
    InitialMatchCursor { last_event_id: Some(latest), last_notified_event_id: Some(latest) }
}

/// Number of events carrying a game.
pub open spec fn games_played_spec(events: Seq<MatchEvent>) -> nat
    decreases events.len(),
{
    if events.len() == 0 {
        0
    } else {
        games_played_spec(events.drop_last()) + if events.last().game is Some { 1nat } else { 0nat }
    }
}

/// The status line of a listened match.
#[derive(Debug, Clone)]
pub struct MatchStatus {
    pub match_name: String,
    /// The match has ended (else it is in progress).
    pub finished: bool,
    pub players: usize,
    pub games_played: u64,
}

/// The status summary of a fetched match: its name, whether it has ended,
/// how many users it lists and how many games were played.
pub fn match_status(response: &MatchResponse) -> (s: MatchStatus)
    ensures
        s.match_name == response.match_name,
        s.finished == response.ended,
        s.players == response.user_count,
        s.games_played == games_played_spec(response.events@),
{
    let events = &response.events;
    let mut count: u64 = 0;
    let mut i: usize = 0;
    while i < events.len()
        invariant
            i <= events.len(),
            count == games_played_spec(events@.subrange(0, i as int)),
            count <= i,
        decreases events.len() - i,
    {
        assert(events@.subrange(0, i + 1).drop_last() =~= events@.subrange(0, i as int));
        if events[i].game.is_some() {
            count = count + 1;
        }
        i = i + 1;
    }
    assert(events@.subrange(0, i as int) =~= events@);
    MatchStatus {
        match_name: response.match_name.clone(),
        finished: response.ended,
        players: response.user_count,
        games_played: count,
    }
}

/// The stored cursor, read as the machine's cursor (ids stored as `i64`).
pub fn listener_cursor(listener: &MatchListener) -> (c: ListenerCursor)
    ensures
        c.last_event_id == match listener.last_event_id { Some(v) => Some(v as u64), None => None::<u64> },
        c.last_notified_event_id == match listener.last_notified_event_id { Some(v) => Some(v as u64), None => None::<u64> },
        c.pending_game_event_id == match listener.pending_game_event_id { Some(v) => Some(v as u64), None => None::<u64> },
{
    ListenerCursor {
        last_event_id: opt_as_u64(listener.last_event_id),
        last_notified_event_id: opt_as_u64(listener.last_notified_event_id),
        pending_game_event_id: opt_as_u64(listener.pending_game_event_id),
    }
}

#[verifier::truncate]
fn opt_as_u64(v: Option<i64>) -> (r: Option<u64>)
    ensures
        r == match v { Some(x) => Some(x as u64), None => None::<u64> },
{
    match v {
        Some(x) => Some(x as u64),
        None => None,
    }
}

} // verus!

verus! {

/// A listener lives at most this long (six hours, in seconds).
pub const MAX_LISTENER_LIFETIME_SECS: i64 = 6 * 3600;

/// The `!ml` actions.
#[derive(Debug, Clone, Copy, PartialEq, Eq, Structural)]
pub enum MatchListenAction {
    Start { match_id: u64, skip_rounds: u32 },
    Stop { match_id: u64 },
    StopAll,
    List,
    Status { match_id: u64 },
}

/// What an `!ml` action came to.
#[derive(Debug, Clone)]
pub enum MlActionResult {
    Started { qq: i64, match_name: String },
    Stopped { qq: i64 },
    StoppedAll { qq: i64, count: u64 },
    List { qq: i64, listeners: Vec<MatchListener> },
    Status { qq: i64, match_name: String, finished: bool, players: usize, games_played: u64 },
    NotFound { qq: i64 },
    Error { qq: i64, message: Reply },
}

/// The error every failed storage or API step of `!ml` reports.
pub fn ml_fetch_failed(qq: i64) -> (r: MlActionResult)
    ensures
        r matches MlActionResult::Error { qq: q, message: m } && q == qq && reply_view(m) == qq_reply("ml.fetch_failed"@, qq),
{
    MlActionResult::Error { qq, message: reply_to("ml.fetch_failed", qq) }
}

/// How `!ml start` begins: a listener of this match already active in the
/// group makes a repeated start succeed at once (named `MP #id`); else the
/// group's active listeners are counted.
pub fn start_after_existing(existing: &Lookup<MatchListener>, now: i64, match_id: u64, qq: i64) -> (r: Option<MlActionResult>)
    ensures
        (r is Some) == (existing matches Lookup::Found(l) && l.active && l.expires_at >= now),
        r matches Some(res) ==> res matches MlActionResult::Started { qq: q, match_name: n }
            && q == qq && n@ == "MP #"@ + dec_digits(match_id as nat),
{
    match existing {
        Lookup::Found(l) => {
            if is_listener_effectively_active(l, now) {
                let mut v: Vec<char> = Vec::new();
                push_str(&mut v, "MP #");
                let d = u64_digits(match_id);
                push_all(&mut v, &d);
                return Some(MlActionResult::Started { qq, match_name: string_of(&v) });
            }
            None
        },
        _ => None,
    }
}

/// After counting the group's active listeners: at the limit or above the
/// start is refused with the limit; a failed count is a fetch failure;
/// otherwise the match is fetched.
pub fn start_after_count(count: Result<u64, ()>, max_per_group: u64, qq: i64) -> (r: Option<MlActionResult>)
    ensures
        match count {
            Ok(c) => if c >= max_per_group {
                r matches Some(MlActionResult::Error { qq: q, message: m }) && q == qq
                    && reply_view(m) == ("ml.limit_exceeded"@, seq![("{limit}"@, dec_digits(max_per_group as nat))])
            } else {
                r is None
            },
            Err(()) => r matches Some(MlActionResult::Error { qq: q, message: m }) && q == qq
                && reply_view(m) == qq_reply("ml.fetch_failed"@, qq),
        },
{
    match count {
        Ok(c) => {
            if c >= max_per_group {
                let mut subs: Vec<(&'static str, String)> = Vec::new();
                subs.push(("{limit}", string_of(&u64_digits(max_per_group))));
                let m = Reply { key: "ml.limit_exceeded", subs };
                proof {
                    assert(reply_view(m).1 =~= seq![("{limit}"@, dec_digits(max_per_group as nat))]);
                }
                Some(MlActionResult::Error { qq, message: m })
            } else {
                None
            }
        },
        Err(()) => Some(ml_fetch_failed(qq)),
    }
}

/// When a listener started at `now` (Unix seconds) lapses: six hours later.
pub fn listener_expiry(now: i64) -> (r: i64)
    requires
        now <= i64::MAX - MAX_LISTENER_LIFETIME_SECS,
    ensures
        r == now + 6 * 3600,
{
    now + MAX_LISTENER_LIFETIME_SECS
}

/// `!ml stop`: a stopped listener, none to stop, or a failure.
pub fn stop_result(stopped: Result<bool, ()>, qq: i64) -> (r: MlActionResult)
    ensures
        match stopped {
            Ok(true) => r matches MlActionResult::Stopped { qq: q } && q == qq,
            Ok(false) => r matches MlActionResult::NotFound { qq: q } && q == qq,
            Err(()) => r matches MlActionResult::Error { qq: q, message: m } && q == qq && reply_view(m) == qq_reply("ml.fetch_failed"@, qq),
        },
{
    match stopped {
        Ok(true) => MlActionResult::Stopped { qq },
        Ok(false) => MlActionResult::NotFound { qq },
        Err(()) => ml_fetch_failed(qq),
    }
}

/// `!ml status` first: a listener active in the group goes on to fetch the
/// match; an inactive or absent one is not found; a failure is reported.
pub fn status_after_listener(existing: &Lookup<MatchListener>, now: i64, qq: i64) -> (r: Option<MlActionResult>)
    ensures
        match existing {
            Lookup::Found(l) => if l.active && l.expires_at >= now {
                r is None
            } else {
                r matches Some(MlActionResult::NotFound { qq: q }) && q == qq
            },
            Lookup::Missing => r matches Some(MlActionResult::NotFound { qq: q }) && q == qq,
            Lookup::Failed => r matches Some(MlActionResult::Error { qq: q, message: m }) && q == qq
                && reply_view(m) == qq_reply("ml.fetch_failed"@, qq),
        },
{
    match existing {
        Lookup::Found(l) => {
            if is_listener_effectively_active(l, now) {
                None
            } else {
                Some(MlActionResult::NotFound { qq })
            }
        },
        Lookup::Missing => Some(MlActionResult::NotFound { qq }),
        Lookup::Failed => Some(ml_fetch_failed(qq)),
    }
}

/// The text of an `!ml` reply: the `head` replies written one after the
/// other, then the `lines` joined with newlines.
#[derive(Debug, Clone)]
pub struct MlResponse {
    pub head: Vec<Reply>,
    pub lines: Vec<Reply>,
}

/// A listener's name as listed: its name, or the "unknown" text when blank.
pub open spec fn listed_name(l: MatchListener) -> Option<Seq<char>> {
    if trim_spec(l.match_name@).len() == 0 {
        None
    } else {
        Some(l.match_name@)
    }
}

/// One line of the listener list.
pub open spec fn list_item_view(idx: int, l: MatchListener, unknown_name: Seq<char>) -> (Seq<char>, Seq<(Seq<char>, Seq<char>)>) {
    ("ml.list_item"@, seq![
        ("{idx}"@, int_to_dec(idx + 1)),
        ("{match_id}"@, int_to_dec(l.match_id as int)),
        ("{match_name}"@, match listed_name(l) { Some(n) => n, None => unknown_name }),
        ("{username}"@, int_to_dec(l.creator_qq as int)),
        ("{status}"@, if l.active { "ml.listener_active_status"@ } else { "ml.listener_stopped_status"@ }),
    ])
}

fn list_item(idx: usize, l: &MatchListener, unknown_name: &String) -> (r: Reply)
    requires
        idx < usize::MAX,
    ensures
        reply_view(r) == list_item_view(idx as int, *l, unknown_name@),
{
    let mut subs: Vec<(&'static str, String)> = Vec::new();
    subs.push(("{idx}", string_of(&u64_digits((idx + 1) as u64))));
    subs.push(("{match_id}", string_of(&i64_chars(l.match_id))));
    let blank = trim(&chars_of(l.match_name.as_str())).len() == 0;
    let name = if blank {
        string_of(&chars_of(unknown_name.as_str()))
    } else {
        string_of(&chars_of(l.match_name.as_str()))
    };
    subs.push(("{match_name}", name));
    subs.push(("{username}", string_of(&i64_chars(l.creator_qq))));
    let status: &'static str = if l.active {
        "ml.listener_active_status"
    } else {
        "ml.listener_stopped_status"
    };
    subs.push(("{status}", string_of(&chars_of(status))));
    let r = Reply { key: "ml.list_item", subs };
    proof {
        assert((idx + 1) as u64 as nat == idx as int + 1);
        assert(reply_view(r).1 =~= list_item_view(idx as int, *l, unknown_name@).1);
    }
    r
}

fn single(r: Reply) -> (out: MlResponse)
    ensures
        out.head@.len() == 1,
        out.head@[0] == r,
        out.lines@.len() == 0,
{
    let mut head: Vec<Reply> = Vec::new();
    head.push(r);
    MlResponse { head, lines: Vec::new() }
}

/// The user an `!ml` result answers.
pub open spec fn result_qq(r: MlActionResult) -> i64 {
    match r {
        MlActionResult::Started { qq, .. } => qq,
        MlActionResult::Stopped { qq } => qq,
        MlActionResult::StoppedAll { qq, .. } => qq,
        MlActionResult::List { qq, .. } => qq,
        MlActionResult::Status { qq, .. } => qq,
        MlActionResult::NotFound { qq } => qq,
        MlActionResult::Error { qq, .. } => qq,
    }
}

/// The reply to an `!ml` action. Errors carry their own message; a start,
/// stop, stop-all and "not found" each have their message; a list is a
/// header and one line per listener (or the "empty" message); a status is
/// five lines: header, name, state, players and games, where the state is
/// itself a key of the string table. `unknown_name` is the text
/// for a listener without a name. A result that does not belong to the
/// action is a generic failure.
pub fn format_ml_response(action: MatchListenAction, result: &MlActionResult, unknown_name: &String) -> (r: MlResponse)
    ensures
        match (action, result) {
            (_, MlActionResult::Error { message, .. }) => r.head@.len() == 1 && reply_view(r.head@[0]) == reply_view(*message) && r.lines@.len() == 0,
            (MatchListenAction::List, MlActionResult::List { qq, listeners }) => if listeners@.len() == 0 {
                r.head@.len() == 1 && reply_view(r.head@[0]) == qq_reply("ml.list_empty"@, *qq) && r.lines@.len() == 0
            } else {
                &&& r.head@.len() == 1
                &&& reply_view(r.head@[0]) == ("ml.list_header"@, seq![("{count}"@, dec_digits(listeners@.len() as nat))])
                &&& r.lines@.len() == listeners@.len()
                &&& forall|i: int| 0 <= i < listeners@.len() ==> reply_view(#[trigger] r.lines@[i]) == list_item_view(i, listeners@[i], unknown_name@)
            },
            (MatchListenAction::Start { match_id, .. }, MlActionResult::Started { qq, match_name }) => r.head@.len() == 1 && r.lines@.len() == 0
                && reply_view(r.head@[0]) == ("ml.start_success"@, seq![
                    ("{qq}"@, int_to_dec(*qq as int)),
                    ("{match_id}"@, dec_digits(match_id as nat)),
                    ("{match_name}"@, match_name@),
                ]),
            (MatchListenAction::Stop { match_id }, MlActionResult::Stopped { qq }) => r.head@.len() == 1 && r.lines@.len() == 0
                && reply_view(r.head@[0]) == ("ml.stop_success"@, seq![
                    ("{qq}"@, int_to_dec(*qq as int)),
                    ("{match_id}"@, dec_digits(match_id as nat)),
                ]),
            (MatchListenAction::StopAll, MlActionResult::StoppedAll { qq, count }) => r.head@.len() == 1 && r.lines@.len() == 0
                && reply_view(r.head@[0]) == ("ml.stop_all_success"@, seq![
                    ("{qq}"@, int_to_dec(*qq as int)),
                    ("{count}"@, dec_digits(*count as nat)),
                ]),
            (MatchListenAction::Status { match_id }, MlActionResult::Status { match_name, finished, players, games_played, .. }) => {
                &&& r.head@.len() == 5
                &&& r.lines@.len() == 0
                &&& reply_view(r.head@[0]) == ("ml.status_header"@, seq![("{match_id}"@, dec_digits(match_id as nat))])
                &&& reply_view(r.head@[1]) == ("ml.status_name"@, seq![("{name}"@, match_name@)])
                &&& reply_view(r.head@[2]) == ("ml.status_status"@, seq![("{status}"@,
                    if *finished { "ml.match_status_finished"@ } else { "ml.match_status_in_progress"@ })])
                &&& reply_view(r.head@[3]) == ("ml.status_players"@, seq![("{count}"@, dec_digits(*players as nat))])
                &&& reply_view(r.head@[4]) == ("ml.status_games"@, seq![("{count}"@, dec_digits(*games_played as nat))])
            },
            (MatchListenAction::Status { match_id }, MlActionResult::NotFound { qq }) => r.head@.len() == 1 && r.lines@.len() == 0
                && reply_view(r.head@[0]) == ("ml.not_found"@, seq![
                    ("{qq}"@, int_to_dec(*qq as int)),
                    ("{match_id}"@, dec_digits(match_id as nat)),
                ]),
            _ => r.head@.len() == 1 && r.lines@.len() == 0
                && reply_view(r.head@[0]) == qq_reply("error.query_failed"@, result_qq(*result)),
        },
{
    match (action, result) {
        (_, MlActionResult::Error { message, .. }) => single(crate::reply::copy_reply(message)),
        (MatchListenAction::Start { match_id, .. }, MlActionResult::Started { qq, match_name }) => {
            let r = reply_to("ml.start_success", *qq);
            let r = with_sub(r, "{match_id}", string_of(&u64_digits(match_id)));
            single(with_sub(r, "{match_name}", string_of(&chars_of(match_name.as_str()))))
        },
        (MatchListenAction::Stop { match_id }, MlActionResult::Stopped { qq }) => {
            let r = reply_to("ml.stop_success", *qq);
            single(with_sub(r, "{match_id}", string_of(&u64_digits(match_id))))
        },
        (MatchListenAction::StopAll, MlActionResult::StoppedAll { qq, count }) => {
            let r = reply_to("ml.stop_all_success", *qq);
            single(with_sub(r, "{count}", string_of(&u64_digits(*count))))
        },
        (MatchListenAction::List, MlActionResult::List { qq, listeners }) => {
            if listeners.len() == 0 {
                single(reply_to("ml.list_empty", *qq))
            } else {
                let mut subs: Vec<(&'static str, String)> = Vec::new();
                subs.push(("{count}", string_of(&u64_digits(listeners.len() as u64))));
                let header = Reply { key: "ml.list_header", subs };
                proof {
                    assert(reply_view(header).1 =~= seq![("{count}"@, dec_digits(listeners@.len() as nat))]);
                }
                let mut lines: Vec<Reply> = Vec::new();
                let mut i: usize = 0;
                while i < listeners.len()
                    invariant
                        i <= listeners@.len(),
                        lines@.len() == i,
                        forall|k: int| 0 <= k < i ==> reply_view(#[trigger] lines@[k]) == list_item_view(k, listeners@[k], unknown_name@),
                    decreases listeners.len() - i,
                {
                    lines.push(list_item(i, &listeners[i], unknown_name));
                    i = i + 1;
                }
                let mut head: Vec<Reply> = Vec::new();
                head.push(header);
                MlResponse { head, lines }
            }
        },
        (MatchListenAction::Status { match_id }, MlActionResult::Status { match_name, finished, players, games_played, .. }) => {
            let mut head: Vec<Reply> = Vec::new();
            let mut s1: Vec<(&'static str, String)> = Vec::new();
            s1.push(("{match_id}", string_of(&u64_digits(match_id))));
            head.push(Reply { key: "ml.status_header", subs: s1 });
            let mut s2: Vec<(&'static str, String)> = Vec::new();
            s2.push(("{name}", string_of(&chars_of(match_name.as_str()))));
            head.push(Reply { key: "ml.status_name", subs: s2 });
            let mut s3: Vec<(&'static str, String)> = Vec::new();
            let status: &'static str = if *finished {
                "ml.match_status_finished"
            } else {
                "ml.match_status_in_progress"
            };
            s3.push(("{status}", string_of(&chars_of(status))));
            head.push(Reply { key: "ml.status_status", subs: s3 });
            let mut s4: Vec<(&'static str, String)> = Vec::new();
            s4.push(("{count}", string_of(&u64_digits(*players as u64))));
            head.push(Reply { key: "ml.status_players", subs: s4 });
            let mut s5: Vec<(&'static str, String)> = Vec::new();
            s5.push(("{count}", string_of(&u64_digits(*games_played))));
            head.push(Reply { key: "ml.status_games", subs: s5 });
            proof {
                assert(reply_view(head@[0]).1 =~= seq![("{match_id}"@, dec_digits(match_id as nat))]);
                assert(reply_view(head@[1]).1 =~= seq![("{name}"@, match_name@)]);
                assert(reply_view(head@[2]).1 =~= seq![("{status}"@,
                    if *finished { "ml.match_status_finished"@ } else { "ml.match_status_in_progress"@ })]);
                assert(reply_view(head@[3]).1 =~= seq![("{count}"@, dec_digits(*players as nat))]);
                assert(reply_view(head@[4]).1 =~= seq![("{count}"@, dec_digits(*games_played as nat))]);
            }
            MlResponse { head, lines: Vec::new() }
        },
        (MatchListenAction::Status { match_id }, MlActionResult::NotFound { qq }) => {
            let r = reply_to("ml.not_found", *qq);
            single(with_sub(r, "{match_id}", string_of(&u64_digits(match_id))))
        },
        (_, other) => {
            let qq = match other {
                MlActionResult::Started { qq, .. } => *qq,
                MlActionResult::Stopped { qq } => *qq,
                MlActionResult::StoppedAll { qq, .. } => *qq,
                MlActionResult::List { qq, .. } => *qq,
                MlActionResult::Status { qq, .. } => *qq,
                MlActionResult::NotFound { qq } => *qq,
                MlActionResult::Error { qq, .. } => *qq,
            };
            single(reply_to("error.query_failed", qq))
        },
    }
}

} // verus!
