//! The background refresher's decisions: how active a user is, when the
//! user is refreshed next, when a snapshot is saved, the daily cleanup, the
//! cooldown of group-triggered refreshes, and the play times read from the
//! API (RFC 3339 timestamps).

use vstd::prelude::*;
use crate::config::SchedulerConfig;

verus! {

/// How active a user is in a mode.
#[derive(Debug, Clone, Copy, PartialEq, Eq, Structural)]
pub enum UserActivity {
    SemiActive,
    Normal,
    Inactive,
    NoRecent,
    UserNotExists,
}

/// The activity of a user who could be looked up: a play in the last four
/// hours is semi-active, a play today is normal; else, by the hours since
/// the last recorded activity (none counts as forever): under eight is
/// "no recent", under forty-eight normal, else inactive.
pub open spec fn activity_spec(has_recent: bool, has_today: bool, hours_since: Option<i64>) -> UserActivity {
    if has_recent {
        UserActivity::SemiActive
    } else if has_today {
        UserActivity::Normal
    } else {
        let h = match hours_since {
            Some(h) => h,
            None => i64::MAX,
        };
        if h < 8 {
            UserActivity::NoRecent
        } else if h < 48 {
            UserActivity::Normal
        } else {
            UserActivity::Inactive
        }
    }
}

/// The activity of a user (see [`activity_spec`]).
pub fn classify_activity(has_recent: bool, has_today: bool, hours_since: Option<i64>) -> (r: UserActivity)
    ensures
        r == activity_spec(has_recent, has_today, hours_since),
{
    if has_recent {
        UserActivity::SemiActive
    } else if has_today {
        UserActivity::Normal
    } else {
        let h = match hours_since {
            Some(h) => h,
            None => i64::MAX,
        };
        if h < 8 {
            UserActivity::NoRecent
        } else if h < 48 {
            UserActivity::Normal
        } else {
            UserActivity::Inactive
        }
    }
}

/// The last activity is moved to now only for real plays: semi-active, or
/// normal because of a play today.
pub fn records_activity(activity: UserActivity, has_today: bool) -> (r: bool)
    ensures
        r == (activity == UserActivity::SemiActive || (activity == UserActivity::Normal && has_today)),
{
    match activity {
        UserActivity::SemiActive => true,
        UserActivity::Normal => has_today,
        _ => false,
    }
}

/// The hours until the next refresh of a user with this activity.
pub open spec fn interval_spec(cfg: SchedulerConfig, activity: UserActivity) -> i64 {
    match activity {
        UserActivity::SemiActive => cfg.semi_active_interval_hours,
        UserActivity::Normal => cfg.normal_interval_hours,
        UserActivity::Inactive => cfg.inactive_interval_hours,
        UserActivity::NoRecent => cfg.no_recent_interval_hours,
        UserActivity::UserNotExists => cfg.user_not_exists_interval_hours,
    }
}

/// The hours until the next refresh (see [`interval_spec`]).
pub fn update_interval_hours(cfg: &SchedulerConfig, activity: UserActivity) -> (r: i64)
    ensures
        r == interval_spec(*cfg, activity),
{
    match activity {
        UserActivity::SemiActive => cfg.semi_active_interval_hours,
        UserActivity::Normal => cfg.normal_interval_hours,
        UserActivity::Inactive => cfg.inactive_interval_hours,
        UserActivity::NoRecent => cfg.no_recent_interval_hours,
        UserActivity::UserNotExists => cfg.user_not_exists_interval_hours,
    }
}

/// With the default intervals, a more active user is refreshed sooner:
/// semi-active every four hours, "no recent" every six, normal every eight,
/// a user that does not exist every twenty-four, inactive every forty-eight.
pub proof fn law_default_intervals_follow_activity()
    ensures
        interval_spec(crate::config::scheduler_defaults(), UserActivity::SemiActive)
            < interval_spec(crate::config::scheduler_defaults(), UserActivity::NoRecent),
        interval_spec(crate::config::scheduler_defaults(), UserActivity::NoRecent)
            < interval_spec(crate::config::scheduler_defaults(), UserActivity::Normal),
        interval_spec(crate::config::scheduler_defaults(), UserActivity::Normal)
            < interval_spec(crate::config::scheduler_defaults(), UserActivity::UserNotExists),
        interval_spec(crate::config::scheduler_defaults(), UserActivity::UserNotExists)
            < interval_spec(crate::config::scheduler_defaults(), UserActivity::Inactive),
{
}

/// The outcome of looking up the last snapshot of a user.
#[derive(Debug, Clone, Copy, PartialEq, Eq, Structural)]
pub enum SnapshotLookup {
    /// The last snapshot's rank and play count.
    Found { rank: Option<i64>, playcount: i64 },
    Missing,
    Failed,
}

/// A snapshot is saved unless the last one has the same rank and play count.
pub fn should_save_snapshot(prev: SnapshotLookup, rank: Option<i64>, playcount: i64) -> (r: bool)
    ensures
        r == match prev {
            SnapshotLookup::Found { rank: pr, playcount: pp } => pr != rank || pp != playcount,
            _ => true,
        },
{
    match prev {
        SnapshotLookup::Found { rank: pr, playcount: pp } => {
            let same_rank = match (pr, rank) {
                (Some(a), Some(b)) => a == b,
                (None, None) => true,
                _ => false,
            };
            !same_rank || pp != playcount
        },
        _ => true,
    }
}

/// The daily cleanup is due when it never ran or ran a day ago or more
/// (times in seconds).
pub fn cleanup_due(last_run: Option<i64>, now: i64) -> (r: bool)
    ensures
        r == match last_run {
            Some(t) => now - t >= 86400,
            None => true,
        },
{
    match last_run {
        Some(t) => {
            let d: i128 = now as i128 - t as i128;
            d >= 86400
        },
        None => true,
    }
}

/// A user is in cooldown for group-triggered refreshes when the last
/// activity is less than `cooldown_hours` ago (times in seconds).
pub fn in_cooldown(last_update: Option<i64>, now: i64, cooldown_hours: i64) -> (r: bool)
    ensures
        r == match last_update {
            Some(t) => now - t < cooldown_hours * 3600,
            None => false,
        },
{
    match last_update {
        Some(t) => {
            let d: i128 = now as i128 - t as i128;
            let c: i128 = cooldown_hours as i128 * 3600;
            d < c
        },
        None => false,
    }
}

/// An RFC 3339 time as seconds since the Unix epoch and nanoseconds past
/// that second, or `None` when the text is not one.
pub uninterp spec fn rfc3339_instant(s: Seq<char>) -> Option<(i64, u32)>;

/// `chrono::DateTime::parse_from_rfc3339`, read back with `timestamp` and
/// `timestamp_subsec_nanos`. Trusted: the result depends on the text alone;
/// which texts parse, and to what, chrono decides.
#[verifier::external_body]
fn parse_rfc3339(s: &str) -> (r: Option<(i64, u32)>)
    ensures
        r == rfc3339_instant(s@),
{
    match chrono::DateTime::parse_from_rfc3339(s) {
        Ok(dt) => Some((dt.timestamp(), dt.timestamp_subsec_nanos())),
        Err(_) => None,
    }
}

/// The epoch seconds of the times that parse, in order.
pub open spec fn play_seconds(times: Seq<String>) -> Seq<i64>
    decreases times.len(),
{
    if times.len() == 0 {
        Seq::empty()
    } else {
        play_seconds(times.drop_last()) + match rfc3339_instant(times.last()@) {
            Some((s, _)) => seq![s],
            None => Seq::empty(),
        }
    }
}

/// The play times to store: the epoch seconds of each creation time that
/// parses as RFC 3339, in order; the others are skipped.
pub fn play_timestamps(created_at: &[String]) -> (r: Vec<i64>)
    ensures
        r@ == play_seconds(created_at@),
{
    let mut out: Vec<i64> = Vec::new();
    let mut i: usize = 0;
    while i < created_at.len()
        invariant
            i <= created_at@.len(),
            out@ == play_seconds(created_at@.take(i as int)),
        decreases created_at.len() - i,
    {
        proof {
            assert(created_at@.take(i as int + 1).drop_last() =~= created_at@.take(i as int));
            assert(created_at@.take(i as int + 1).last() == created_at@[i as int]);
        }
        match parse_rfc3339(created_at[i].as_str()) {
            Some((s, _)) => {
                out.push(s);
            },
            None => {},
        }
        proof {
            assert(out@ =~= play_seconds(created_at@.take(i as int + 1)));
        }
        i = i + 1;
    }
    proof {
        assert(created_at@.take(created_at@.len() as int) =~= created_at@);
    }
    out
}

/// `(s, n)` is later than `(cs, cn)`.
pub open spec fn later(s: i64, n: u32, cs: int, cn: u32) -> bool {
    s > cs || (s == cs && n > cn)
}

/// Which creation times fall in the last day before `now` (`now_secs`,
/// `now_nanos`): strictly after now minus twenty-four hours; a time that
/// does not parse is dropped.
pub open spec fn within_last_day(t: Seq<char>, now_secs: i64, now_nanos: u32) -> bool {
    match rfc3339_instant(t) {
        Some((s, n)) => later(s, n, now_secs - 86400, now_nanos),
        None => false,
    }
}

/// Whether a time read from the API (seconds and nanoseconds since the
/// epoch, `None` when it did not parse) falls in the last day before
/// `now_secs`, `now_nanos`: strictly after now minus twenty-four hours.
pub fn in_last_day(t: Option<(i64, u32)>, now_secs: i64, now_nanos: u32) -> (b: bool)
    requires
        now_secs >= i64::MIN + 86400,
    ensures
        b == match t {
            Some((s, n)) => later(s, n, now_secs - 86400, now_nanos),
            None => false,
        },
{
    let cut = now_secs - 86400;
    match t {
        Some((s, n)) => s > cut || (s == cut && n > now_nanos),
        None => false,
    }
}

/// For each creation time, whether it falls in the last day (see
/// [`within_last_day`]): the "today's best" scores.
pub fn today_flags(created_at: &[String], now_secs: i64, now_nanos: u32) -> (r: Vec<bool>)
    requires
        now_secs >= i64::MIN + 86400,
    ensures
        r@.len() == created_at@.len(),
        forall|i: int| 0 <= i < r@.len() ==> r@[i] == within_last_day(#[trigger] created_at@[i]@, now_secs, now_nanos),
{
    let mut out: Vec<bool> = Vec::new();
    let mut i: usize = 0;
    while i < created_at.len()
        invariant
            i <= created_at@.len(),
            out@.len() == i,
            now_secs >= i64::MIN + 86400,
            forall|k: int| 0 <= k < i ==> out@[k] == within_last_day(#[trigger] created_at@[k]@, now_secs, now_nanos),
        decreases created_at.len() - i,
    {
        let keep = in_last_day(parse_rfc3339(created_at[i].as_str()), now_secs, now_nanos);
        out.push(keep);
        i = i + 1;
    }
    out
}

} // verus!
