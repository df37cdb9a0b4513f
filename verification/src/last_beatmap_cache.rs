//! The beatmap each group asked about last, kept for a time-to-live (24 hours
//! by default). A lookup that finds an expired entry removes it, so stale
//! entries do not pile up.

use vstd::prelude::*;
use std::collections::HashMap;
use std::time::{Duration, Instant};
use crate::clock::{duration_nanos, elapsed_since, instant_now, nanos_of};

verus! {

broadcast use vstd::std_specs::hash::group_hash_axioms;

/// The default time-to-live: one day, in nanoseconds.
pub open spec fn day_nanos() -> u128 {
    86_400_000_000_000
}

/// Time passed from `set_at` to `now`, zero when `now` is not later (as
/// `Instant::elapsed` saturates).
pub open spec fn age(set_at: u128, now: u128) -> int {
    if now >= set_at {
        now - set_at
    } else {
        0
    }
}

/// What a lookup at `now` answers.
pub open spec fn lookup(entries: Map<i64, (u32, u128)>, ttl: u128, group_id: i64, now: u128) -> Option<u32> {
    if entries.contains_key(group_id) && age(entries[group_id].1, now) < ttl {
        Some(entries[group_id].0)
    } else {
        None
    }
}

/// The entries after a lookup at `now`: an entry found expired is removed.
pub open spec fn after_lookup(entries: Map<i64, (u32, u128)>, ttl: u128, group_id: i64, now: u128) -> Map<i64, (u32, u128)> {
    if lookup(entries, ttl, group_id, now) is Some {
        entries
    } else {
        entries.remove(group_id)
    }
}

/// The last beatmap per group, with the time it was stored.
pub struct LastBeatmapCache {
    entries: HashMap<i64, (u32, u128)>,
    ttl_nanos: u128,
    origin: Instant,
}

impl LastBeatmapCache {
    /// Each group's beatmap id and the time (nanoseconds since the cache was made) it was stored.
    pub closed spec fn entries(&self) -> Map<i64, (u32, u128)> {
        self.entries@
    }

    /// How long an entry lives, in nanoseconds.
    pub closed spec fn ttl(&self) -> u128 {
        self.ttl_nanos
    }

    /// An empty cache whose entries live one day.
    pub fn new() -> (r: Self)
        ensures
            r.entries() == Map::<i64, (u32, u128)>::empty(),
            r.ttl() == day_nanos(),
    {
        LastBeatmapCache { entries: HashMap::new(), ttl_nanos: 86_400_000_000_000, origin: instant_now() }
    }

    /// An empty cache whose entries live `ttl`.
    pub fn with_ttl(ttl: Duration) -> (r: Self)
        ensures
            r.entries() == Map::<i64, (u32, u128)>::empty(),
            r.ttl() == nanos_of(ttl),
    {
        LastBeatmapCache { entries: HashMap::new(), ttl_nanos: duration_nanos(&ttl), origin: instant_now() }
    }

    /// The group's beatmap if it was stored less than the time-to-live before
    /// `now`; an expired entry is removed.
    pub fn get_at(&mut self, group_id: i64, now: u128) -> (r: Option<u32>)
        ensures
            r == lookup(old(self).entries(), old(self).ttl(), group_id, now),
            final(self).entries() == after_lookup(old(self).entries(), old(self).ttl(), group_id, now),
            final(self).ttl() == old(self).ttl(),
    {
        let found = match self.entries.get(&group_id) {
            Some(e) => Some(*e),
            None => None,
        };
        match found {
            Some((bid, set_at)) => {
                let age: u128 = if now >= set_at {
                    now - set_at
                } else {
                    0
                };
                if age < self.ttl_nanos {
                    Some(bid)
                } else {
                    self.entries.remove(&group_id);
                    None
                }
            },
            None => {
                proof {
                    assert(self.entries@.remove(group_id) =~= self.entries@);
                }
                None
            },
        }
    }

    /// The group's beatmap if it is still fresh now; an expired entry is removed.
    pub fn get(&mut self, group_id: i64) -> (r: Option<u32>)
        ensures
            final(self).ttl() == old(self).ttl(),
            match r {
                Some(b) => old(self).entries().contains_key(group_id) && old(self).entries()[group_id].0 == b
                    && final(self).entries() == old(self).entries(),
                None => final(self).entries() == old(self).entries().remove(group_id),
            },
    {
        let now = duration_nanos(&elapsed_since(&self.origin));
        self.get_at(group_id, now)
    }

    /// Stores the group's beatmap as of `now`, replacing what it had.
    pub fn set_at(&mut self, group_id: i64, beatmap_id: u32, now: u128)
        ensures
            final(self).entries() == old(self).entries().insert(group_id, (beatmap_id, now)),
            final(self).ttl() == old(self).ttl(),
    {
        self.entries.insert(group_id, (beatmap_id, now));
    }

    /// Stores the group's beatmap as of now, replacing what it had.
    pub fn set(&mut self, group_id: i64, beatmap_id: u32)
        ensures
            final(self).entries().contains_key(group_id),
            final(self).entries()[group_id].0 == beatmap_id,
            final(self).entries() == old(self).entries().insert(group_id, final(self).entries()[group_id]),
            final(self).ttl() == old(self).ttl(),
    {
        let now = duration_nanos(&elapsed_since(&self.origin));
        self.set_at(group_id, beatmap_id, now);
    }
}

impl Default for LastBeatmapCache {
    fn default() -> (r: Self)
        ensures
            r.entries() == Map::<i64, (u32, u128)>::empty(),
            r.ttl() == day_nanos(),
    {
        LastBeatmapCache::new()
    }
}

/// A beatmap stored for a group is what a lookup within the time-to-live gives back.
pub proof fn law_get_returns_fresh_set(entries: Map<i64, (u32, u128)>, ttl: u128, group_id: i64, beatmap_id: u32, set_at: u128, now: u128)
    requires
        age(set_at, now) < ttl,
    ensures
        lookup(entries.insert(group_id, (beatmap_id, set_at)), ttl, group_id, now) == Some(beatmap_id),
{
}

/// Storing a beatmap for one group changes no other group's lookup.
pub proof fn law_set_leaves_other_groups(entries: Map<i64, (u32, u128)>, ttl: u128, group_id: i64, other: i64, beatmap_id: u32, set_at: u128, now: u128)
    requires
        other != group_id,
    ensures
        lookup(entries.insert(group_id, (beatmap_id, set_at)), ttl, other, now) == lookup(entries, ttl, other, now),
{
}

/// A lookup that misses leaves no entry for the group, so a later lookup,
/// at any time, misses too until the group is stored again.
pub proof fn law_expired_entry_does_not_return(entries: Map<i64, (u32, u128)>, ttl: u128, group_id: i64, now: u128, later: u128)
    requires
        lookup(entries, ttl, group_id, now) is None,
    ensures
        !after_lookup(entries, ttl, group_id, now).contains_key(group_id),
        lookup(after_lookup(entries, ttl, group_id, now), ttl, group_id, later) is None,
{
}

} // verus!
