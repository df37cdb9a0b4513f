//! How a score query is carried out: which request size is asked of the
//! API, which shortcut a command takes (a score id, a beatmap id, the
//! group's last beatmap), and which of the fetched scores are shown, as one
//! card or as a list. Fetching and drawing are the caller's.

use vstd::prelude::*;
use crate::last_beatmap_cache::LastBeatmapCache;
use crate::scheduler::{today_flags, within_last_day};

verus! {

/// How many scores are asked for when a client-side filter must run.
pub const SCORE_API_FETCH_LIMIT: u32 = 200;

/// What a query draws.
#[derive(Debug, Clone, Copy, PartialEq, Eq, Structural)]
pub enum RenderOutput {
    SingleScoreCard,
    ScoreListCard,
    Audio,
    BeatmapPreview,
}

/// A list card for a summary, else a single card.
pub fn summary_or_single(is_summary: bool) -> (r: RenderOutput)
    ensures
        r == (if is_summary { RenderOutput::ScoreListCard } else { RenderOutput::SingleScoreCard }),
{
    if is_summary {
        RenderOutput::ScoreListCard
    } else {
        RenderOutput::SingleScoreCard
    }
}

/// The score queries.
#[derive(Debug, Clone, Copy, PartialEq, Eq, Structural)]
pub enum QueryKind {
    Pass,
    Recent,
    Best,
    TodayBest,
    BeatmapAudio,
    BeatmapPreview,
    ScoreOnBeatmap,
}

/// How a query of one kind is fetched, shown and named in messages.
#[derive(Debug, Clone, Copy)]
pub struct QuerySpec {
    pub render: RenderOutput,
    pub label_key: &'static str,
    pub noun_key: &'static str,
    pub empty_msg_key: &'static str,
    /// A list without an explicit range is cut to `limit` scores.
    pub truncate_bare_list: bool,
    /// A single score is completed with a second request before drawing.
    pub single_needs_backfill: bool,
    /// A fixed request size, overriding the one derived from the command.
    pub api_fetch_limit: Option<u32>,
}

/// The specification of a query of this kind. `list` is the command's
/// summary flag, or for a beatmap query, `*` or an explicit range.
pub open spec fn spec_of(kind: QueryKind, list: bool) -> (RenderOutput, Seq<char>, Seq<char>, Seq<char>, bool, bool, Option<u32>) {
    let shown = if list { RenderOutput::ScoreListCard } else { RenderOutput::SingleScoreCard };
    match kind {
        QueryKind::Pass => (shown, "fmt.recent_pass"@, "query.noun_replay"@, "query.no_records_pass"@, false, true, None),
        QueryKind::Recent => (shown, "fmt.recent_play"@, "query.noun_replay"@, "query.no_records"@, false, true, None),
        QueryKind::Best => (shown, "fmt.best_score"@, "query.noun_best"@, "query.no_records_best"@, false, true, None),
        QueryKind::TodayBest => (shown, "fmt.today_best"@, "query.noun_today_best"@, "query.no_records_today_best"@, true, true, Some(200u32)),
        QueryKind::BeatmapAudio => (RenderOutput::Audio, "fmt.recent_play"@, "query.noun_replay"@, "query.no_records"@, false, false, None),
        QueryKind::BeatmapPreview => (RenderOutput::BeatmapPreview, "fmt.recent_play"@, "query.noun_replay"@, "query.no_records"@, false, false, None),
        QueryKind::ScoreOnBeatmap => (shown, "fmt.beatmap_score"@, "query.noun_score"@, "query.no_score_on_map"@, false, true, None),
    }
}

/// The view of a query specification.
pub open spec fn spec_view(s: QuerySpec) -> (RenderOutput, Seq<char>, Seq<char>, Seq<char>, bool, bool, Option<u32>) {
    (s.render, s.label_key@, s.noun_key@, s.empty_msg_key@, s.truncate_bare_list, s.single_needs_backfill, s.api_fetch_limit)
}

/// The specification of a query (see [`spec_of`]).
pub fn query_spec(kind: QueryKind, list: bool) -> (r: QuerySpec)
    ensures
        spec_view(r) == spec_of(kind, list),
{
    let shown = summary_or_single(list);
    match kind {
        QueryKind::Pass => QuerySpec {
            render: shown,
            label_key: "fmt.recent_pass",
            noun_key: "query.noun_replay",
            empty_msg_key: "query.no_records_pass",
            truncate_bare_list: false,
            single_needs_backfill: true,
            api_fetch_limit: None,
        },
        QueryKind::Recent => QuerySpec {
            render: shown,
            label_key: "fmt.recent_play",
            noun_key: "query.noun_replay",
            empty_msg_key: "query.no_records",
            truncate_bare_list: false,
            single_needs_backfill: true,
            api_fetch_limit: None,
        },
        QueryKind::Best => QuerySpec {
            render: shown,
            label_key: "fmt.best_score",
            noun_key: "query.noun_best",
            empty_msg_key: "query.no_records_best",
            truncate_bare_list: false,
            single_needs_backfill: true,
            api_fetch_limit: None,
        },
        QueryKind::TodayBest => QuerySpec {
            render: shown,
            label_key: "fmt.today_best",
            noun_key: "query.noun_today_best",
            empty_msg_key: "query.no_records_today_best",
            truncate_bare_list: true,
            single_needs_backfill: true,
            api_fetch_limit: Some(SCORE_API_FETCH_LIMIT),
        },
        QueryKind::BeatmapAudio => QuerySpec {
            render: RenderOutput::Audio,
            label_key: "fmt.recent_play",
            noun_key: "query.noun_replay",
            empty_msg_key: "query.no_records",
            truncate_bare_list: false,
            single_needs_backfill: false,
            api_fetch_limit: None,
        },
        QueryKind::BeatmapPreview => QuerySpec {
            render: RenderOutput::BeatmapPreview,
            label_key: "fmt.recent_play",
            noun_key: "query.noun_replay",
            empty_msg_key: "query.no_records",
            truncate_bare_list: false,
            single_needs_backfill: false,
            api_fetch_limit: None,
        },
        QueryKind::ScoreOnBeatmap => QuerySpec {
            render: shown,
            label_key: "fmt.beatmap_score",
            noun_key: "query.noun_score",
            empty_msg_key: "query.no_score_on_map",
            truncate_bare_list: false,
            single_needs_backfill: true,
            api_fetch_limit: None,
        },
    }
}

/// The request size of a query: the kind's fixed size if it has one; else
/// the end of the range (or the position); raised to the filter limit when
/// scores are filtered on the client (by filters or by beatmap).
pub open spec fn api_limit_spec(fixed: Option<u32>, limit: u32, limit_end: Option<u32>, has_filters: bool, has_beatmap: bool) -> u32 {
    match fixed {
        Some(n) => n,
        None => {
            let raw = match limit_end {
                Some(e) => e,
                None => limit,
            };
            if (has_filters || has_beatmap) && raw < 200 {
                200
            } else {
                raw
            }
        },
    }
}

/// A query asks for enough scores: its kind's fixed size when it has one;
/// else at least as many as the range's end (or the position) reaches, and
/// at least the filter limit of two hundred when scores are filtered on the
/// client, asking for more than needed only to reach that limit.
pub proof fn law_fetch_enough(fixed: Option<u32>, limit: u32, limit_end: Option<u32>, has_filters: bool, has_beatmap: bool)
    ensures
        ({
            let r = api_limit_spec(fixed, limit, limit_end, has_filters, has_beatmap);
            let reach: u32 = match limit_end {
                Some(e) => e,
                None => limit,
            };
            &&& fixed matches Some(n) ==> r == n
            &&& fixed is None ==> r >= reach
            &&& fixed is None && (has_filters || has_beatmap) ==> r >= 200 && (r == reach || r == 200)
            &&& fixed is None && !has_filters && !has_beatmap ==> r == reach
        }),
{
}

/// The request size of a query (see [`api_limit_spec`]).
pub fn api_fetch_limit(fixed: Option<u32>, limit: u32, limit_end: Option<u32>, has_filters: bool, has_beatmap: bool) -> (r: u32)
    ensures
        r == api_limit_spec(fixed, limit, limit_end, has_filters, has_beatmap),
{
    match fixed {
        Some(n) => n,
        None => {
            let raw = match limit_end {
                Some(e) => e,
                None => limit,
            };
            if (has_filters || has_beatmap) && raw < SCORE_API_FETCH_LIMIT {
                SCORE_API_FETCH_LIMIT
            } else {
                raw
            }
        },
    }
}

/// Where an audio or preview command goes before any score is fetched.
#[derive(Debug, Clone, Copy, PartialEq, Eq, Structural)]
pub enum ShortcutRoute {
    /// Fetch this score and use its beatmap.
    ScoreById(u64),
    /// Use this beatmap directly.
    BeatmapById(u32),
    /// Use the group's last beatmap.
    CachedBeatmap(u32),
    /// Run the ordinary score query.
    Query,
}

/// The route of an audio or preview command: its score id, else its beatmap
/// id, else, when it names no player, filter, position or mode, the group's
/// last beatmap if it is still fresh; else the ordinary query. The cache is
/// consulted only in that last case.
pub fn shortcut_route(cache: &mut LastBeatmapCache, group_id: i64, score_id: Option<u64>, beatmap_id: Option<u32>, has_target: bool) -> (r: ShortcutRoute)
    ensures
        score_id matches Some(s) ==> r == ShortcutRoute::ScoreById(s) && final(cache).entries() == old(cache).entries(),
        score_id is None ==> (beatmap_id matches Some(b) ==> r == ShortcutRoute::BeatmapById(b) && final(cache).entries() == old(cache).entries()),
        score_id is None && beatmap_id is None && has_target ==> r == ShortcutRoute::Query && final(cache).entries() == old(cache).entries(),
        score_id is None && beatmap_id is None && !has_target ==> match r {
            ShortcutRoute::CachedBeatmap(b) => old(cache).entries().contains_key(group_id)
                && old(cache).entries()[group_id].0 == b && final(cache).entries() == old(cache).entries(),
            ShortcutRoute::Query => final(cache).entries() == old(cache).entries().remove(group_id),
            _ => false,
        },
        final(cache).ttl() == old(cache).ttl(),
{
    if let Some(s) = score_id {
        return ShortcutRoute::ScoreById(s);
    }
    if let Some(b) = beatmap_id {
        return ShortcutRoute::BeatmapById(b);
    }
    if has_target {
        return ShortcutRoute::Query;
    }
    match cache.get(group_id) {
        Some(b) => ShortcutRoute::CachedBeatmap(b),
        None => ShortcutRoute::Query,
    }
}

/// The beatmap of a beatmap score query: the one the command names, else
/// the group's last beatmap if it is still fresh, else the error key asking
/// for a beatmap. A beatmap found is stored again as the group's last.
pub fn resolve_beatmap(cache: &mut LastBeatmapCache, group_id: i64, beatmap_id: Option<u32>) -> (r: Result<u32, &'static str>)
    ensures
        final(cache).ttl() == old(cache).ttl(),
        match beatmap_id {
            Some(b) => r == Ok::<u32, &'static str>(b) && final(cache).entries().contains_key(group_id)
                && final(cache).entries()[group_id].0 == b,
            None => match r {
                Ok(b) => old(cache).entries().contains_key(group_id) && old(cache).entries()[group_id].0 == b
                    && final(cache).entries().contains_key(group_id) && final(cache).entries()[group_id].0 == b,
                Err(k) => k@ == "query.need_beatmap_or_cache"@ && final(cache).entries() == old(cache).entries().remove(group_id),
            },
        },
{
    let resolved = match beatmap_id {
        Some(b) => b,
        None => match cache.get(group_id) {
            Some(b) => b,
            None => {
                return Err("query.need_beatmap_or_cache");
            },
        },
    };
    cache.set(group_id, resolved);
    Ok(resolved)
}

} // verus!

verus! {

/// The fetch plan of a beatmap score query.
#[derive(Debug, Clone, Copy, PartialEq, Eq, Structural)]
pub struct ScoreQueryPlan {
    /// The most scores one request asks for; `None` leaves it to the API.
    pub api_limit: Option<u32>,
    /// The filters are skipped (one score, no filters).
    pub bypass_filter: bool,
    /// One score is shown.
    pub single_score: bool,
    /// All scores (`*`) are listed.
    pub is_all: bool,
}

impl ScoreQueryPlan {
    /// The plain single-score query: one score, no filters.
    pub fn single() -> (r: Self)
        ensures
            r == (ScoreQueryPlan { api_limit: Some(1), bypass_filter: true, single_score: true, is_all: false }),
    {
        ScoreQueryPlan { api_limit: Some(1), bypass_filter: true, single_score: true, is_all: false }
    }

    /// A single score picked out of `api_limit` fetched ones, with filters.
    pub fn single_with_filters(api_limit: u32) -> (r: Self)
        ensures
            r == (ScoreQueryPlan { api_limit: Some(api_limit), bypass_filter: false, single_score: true, is_all: false }),
    {
        ScoreQueryPlan { api_limit: Some(api_limit), bypass_filter: false, single_score: true, is_all: false }
    }

    /// All scores, listed.
    pub fn list(api_limit: Option<u32>) -> (r: Self)
        ensures
            r == (ScoreQueryPlan { api_limit, bypass_filter: false, single_score: false, is_all: true }),
    {
        ScoreQueryPlan { api_limit, bypass_filter: false, single_score: false, is_all: true }
    }

    /// A position or a range out of `api_limit` fetched scores.
    pub fn range(api_limit: u32) -> (r: Self)
        ensures
            r == (ScoreQueryPlan { api_limit: Some(api_limit), bypass_filter: false, single_score: false, is_all: false }),
    {
        ScoreQueryPlan { api_limit: Some(api_limit), bypass_filter: false, single_score: false, is_all: false }
    }
}

/// The plan of a beatmap score query: `*` lists all scores, asking for the
/// range's end or a position above one (raised to the filter limit when
/// filters are given); position one without a range fetches one score, or
/// the filter limit when filters are given; anything else fetches up to the
/// range's end or the position, raised to the filter limit with filters.
pub open spec fn beatmap_plan_spec(is_all: bool, limit: u32, limit_end: Option<u32>, has_filters: bool) -> ScoreQueryPlan {
    if is_all {
        let raw = match limit_end {
            Some(e) => Some(e),
            None => if limit > 1 { Some(limit) } else { None },
        };
        let api = match raw {
            Some(n) => if has_filters && n < 200 { Some(200u32) } else { Some(n) },
            None => None,
        };
        ScoreQueryPlan { api_limit: api, bypass_filter: false, single_score: false, is_all: true }
    } else if limit == 1 && limit_end is None {
        if has_filters {
            ScoreQueryPlan { api_limit: Some(200), bypass_filter: false, single_score: true, is_all: false }
        } else {
            ScoreQueryPlan { api_limit: Some(1), bypass_filter: true, single_score: true, is_all: false }
        }
    } else {
        let raw = match limit_end {
            Some(e) => e,
            None => limit,
        };
        let api = if has_filters && raw < 200 { 200u32 } else { raw };
        ScoreQueryPlan { api_limit: Some(api), bypass_filter: false, single_score: false, is_all: false }
    }
}

/// The plan of a beatmap score query (see [`beatmap_plan_spec`]).
pub fn beatmap_query_plan(is_all: bool, limit: u32, limit_end: Option<u32>, has_filters: bool) -> (r: ScoreQueryPlan)
    ensures
        r == beatmap_plan_spec(is_all, limit, limit_end, has_filters),
{
    if is_all {
        let raw = match limit_end {
            Some(e) => Some(e),
            None => if limit > 1 {
                Some(limit)
            } else {
                None
            },
        };
        let api = match raw {
            Some(n) => if has_filters && n < SCORE_API_FETCH_LIMIT {
                Some(SCORE_API_FETCH_LIMIT)
            } else {
                Some(n)
            },
            None => None,
        };
        ScoreQueryPlan::list(api)
    } else if limit == 1 && limit_end.is_none() {
        if has_filters {
            ScoreQueryPlan::single_with_filters(SCORE_API_FETCH_LIMIT)
        } else {
            ScoreQueryPlan::single()
        }
    } else {
        let raw = match limit_end {
            Some(e) => e,
            None => limit,
        };
        let api = if has_filters && raw < SCORE_API_FETCH_LIMIT {
            SCORE_API_FETCH_LIMIT
        } else {
            raw
        };
        ScoreQueryPlan::range(api)
    }
}

/// The items whose flag is set, in order.
pub open spec fn kept<T>(items: Seq<T>, keep: Seq<bool>) -> Seq<T>
    decreases items.len(),
{
    if items.len() == 0 {
        Seq::empty()
    } else {
        kept(items.drop_last(), keep) + if keep[items.len() - 1] {
            seq![items.last()]
        } else {
            Seq::empty()
        }
    }
}

/// Keeps the scores whose flag is set (the scores that pass the filters), in order.
pub fn filter_scores<T>(scores: Vec<T>, keep: &[bool]) -> (r: Vec<T>)
    requires
        keep@.len() == scores@.len(),
    ensures
        r@ == kept(scores@, keep@),
{
    let ghost all = scores@;
    let mut rest = scores;
    let mut out: Vec<T> = Vec::new();
    let mut i: usize = 0;
    while rest.len() > 0
        invariant
            keep@.len() == all.len(),
            i + rest@.len() == all.len(),
            rest@ == all.skip(i as int),
            out@ == kept(all.take(i as int), keep@),
        decreases rest.len(),
    {
        let x = rest.remove(0);
        proof {
            assert(all.take(i as int + 1).drop_last() =~= all.take(i as int));
            assert(all.take(i as int + 1).last() == all[i as int]);
            assert(x == all[i as int]);
            assert(rest@ =~= all.skip(i as int + 1));
        }
        if keep[i] {
            out.push(x);
        }
        i = i + 1;
    }
    proof {
        assert(all.take(all.len() as int) =~= all);
    }
    out
}

/// Filtering, then cutting a range out: no score left is
/// `query.no_match`; a range whose start (`limit`, counted from one) is past
/// the last score, or which keeps nothing, is `query.index_out_of_range`.
pub open spec fn process_spec<T>(scores: Seq<T>, keep: Seq<bool>, limit: u32, limit_end: Option<u32>) -> Result<Seq<T>, Seq<char>> {
    let f = kept(scores, keep);
    if f.len() == 0 {
        Err("query.no_match"@)
    } else {
        match limit_end {
            None => Ok(f),
            Some(e) => {
                let start = limit - 1;
                if start >= f.len() {
                    Err("query.index_out_of_range"@)
                } else {
                    let end = if e < f.len() { e as int } else { f.len() as int };
                    if end <= start {
                        Err("query.index_out_of_range"@)
                    } else {
                        Ok(f.subrange(start, end))
                    }
                }
            },
        }
    }
}

/// Filters the scores and cuts out the range `limit..=limit_end` (positions
/// counted from one), see [`process_spec`].
pub fn process_scores<T>(scores: Vec<T>, keep: &[bool], limit: u32, limit_end: Option<u32>) -> (r: Result<Vec<T>, &'static str>)
    requires
        keep@.len() == scores@.len(),
        limit_end is Some ==> limit >= 1,
        limit_end matches Some(e) && (e as int) < limit - 1 ==> limit - 1 >= kept(scores@, keep@).len(),
    ensures
        match r {
            Ok(v) => process_spec(scores@, keep@, limit, limit_end) == Ok::<Seq<T>, Seq<char>>(v@),
            Err(k) => process_spec(scores@, keep@, limit, limit_end) == Err::<Seq<T>, Seq<char>>(k@),
        },
{
    let ghost f = kept(scores@, keep@);
    let mut scores = filter_scores(scores, keep);
    if scores.len() == 0 {
        return Err("query.no_match");
    }
    match limit_end {
        None => Ok(scores),
        Some(e) => {
            let start = (limit - 1) as usize;
            if start >= scores.len() {
                return Err("query.index_out_of_range");
            }
            let end: usize = if (e as usize) < scores.len() {
                e as usize
            } else {
                scores.len()
            };
            let mut k: usize = 0;
            while k < start
                invariant
                    k <= start,
                    start < f.len(),
                    scores@ == f.skip(k as int),
                decreases start - k,
            {
                scores.remove(0);
                proof {
                    assert(scores@ =~= f.skip(k as int + 1));
                }
                k = k + 1;
            }
            scores.truncate(end - start);
            proof {
                assert(scores@ =~= f.subrange(start as int, end as int));
            }
            if scores.len() == 0 {
                return Err("query.index_out_of_range");
            }
            Ok(scores)
        },
    }
}

} // verus!

verus! {

/// Which fetched scores a query shows.
#[derive(Debug, Clone, PartialEq, Eq)]
pub enum Selection {
    /// Nothing was fetched: the query's "no records" message.
    NoRecords,
    /// Nothing is left after the beatmap and filters: the "no match" message.
    NoMatch,
    /// The asked position is past the last score left.
    OutOfRange { pos: u32, total: usize },
    /// These fetched scores, by index, as a list.
    List(Vec<usize>),
    /// One score: its position among the scores left, and its index among those fetched.
    Single { position: usize, index: usize },
}

/// The indices of the fetched scores that are on the wanted beatmap (when
/// one is wanted) and pass the filters, in order.
pub open spec fn survivors(beatmap_ids: Seq<i64>, keep: Seq<bool>, wanted: Option<i64>) -> Seq<usize> {
    kept(
        Seq::new(beatmap_ids.len(), |i: int| i as usize),
        Seq::new(beatmap_ids.len(), |i: int| keep[i] && (wanted matches Some(w) ==> beatmap_ids[i] == w)),
    )
}

/// The view of a selection.
pub open spec fn selection_view(s: Selection) -> (int, u32, int, Seq<usize>) {
    match s {
        Selection::NoRecords => (0, 0, 0, Seq::empty()),
        Selection::NoMatch => (1, 0, 0, Seq::empty()),
        Selection::OutOfRange { pos, total } => (2, pos, total as int, Seq::empty()),
        Selection::List(v) => (3, 0, 0, v@),
        Selection::Single { position, index } => (4, 0, position as int, seq![index]),
    }
}

/// What a query shows of `n` fetched scores: nothing fetched, nothing left,
/// a list (a range `limit..=limit_end` counted from one, the first `limit`
/// for a kind that cuts bare lists, or all), or the score at position
/// `limit`; a position past the last score left is out of range.
pub open spec fn select_spec(beatmap_ids: Seq<i64>, keep: Seq<bool>, wanted: Option<i64>, limit: u32, limit_end: Option<u32>, list_mode: bool, truncate_bare_list: bool) -> (int, u32, int, Seq<usize>) {
    let s = survivors(beatmap_ids, keep, wanted);
    if beatmap_ids.len() == 0 {
        (0, 0, 0, Seq::empty())
    } else if s.len() == 0 {
        (1, 0, 0, Seq::empty())
    } else if list_mode || limit_end is Some {
        match limit_end {
            Some(e) => {
                let start = limit - 1;
                if start >= s.len() {
                    (2, limit, s.len() as int, Seq::empty())
                } else {
                    let end = if e < s.len() { e as int } else { s.len() as int };
                    (3, 0, 0, s.subrange(start, end))
                }
            },
            None => if truncate_bare_list && limit < s.len() {
                (3, 0, 0, s.take(limit as int))
            } else {
                (3, 0, 0, s)
            },
        }
    } else {
        let index = limit - 1;
        if index >= s.len() {
            (2, limit, s.len() as int, Seq::empty())
        } else {
            (4, 0, index, seq![s[index]])
        }
    }
}

proof fn lemma_kept_indices(m: nat, flags: Seq<bool>)
    requires
        m <= usize::MAX,
        m <= flags.len(),
    ensures
        ({
            let k = kept(Seq::new(m, |i: int| i as usize), flags);
            &&& forall|j: int| 0 <= j < k.len() ==> (#[trigger] k[j]) < m && flags[k[j] as int]
            &&& forall|j: int, l: int| 0 <= j < l < k.len() ==> #[trigger] k[j] < #[trigger] k[l]
            &&& forall|i: int| 0 <= i < m && flags[i] ==> exists|j: int| 0 <= j < k.len() && #[trigger] k[j] == i
        }),
    decreases m,
{
    if m > 0 {
        let items = Seq::new(m, |i: int| i as usize);
        let prev = Seq::new((m - 1) as nat, |i: int| i as usize);
        assert(items.drop_last() =~= prev);
        lemma_kept_indices((m - 1) as nat, flags);
        let kp = kept(prev, flags);
        let k = kept(items, flags);
        assert(items.last() == (m - 1) as usize);
        assert forall|j: int| 0 <= j < kp.len() implies #[trigger] k[j] == kp[j] by {}
        if flags[m - 1] {
            assert(k[kp.len() as int] == (m - 1) as usize);
            assert(k.len() == kp.len() + 1);
        } else {
            assert(k =~= kp);
        }
        assert forall|i: int| 0 <= i < m && flags[i] implies exists|j: int| 0 <= j < k.len() && #[trigger] k[j] == i by {
            if i < m - 1 {
                let j = choose|j: int| 0 <= j < kp.len() && #[trigger] kp[j] == i;
                assert(k[j] == kp[j]);
            } else {
                assert(k[kp.len() as int] == i);
            }
        }
    }
}

/// The scores left are exactly the fetched scores that pass the filters and
/// are on the wanted beatmap (when one is wanted), by index, in fetch order.
pub proof fn law_survivors(beatmap_ids: Seq<i64>, keep: Seq<bool>, wanted: Option<i64>)
    requires
        keep.len() == beatmap_ids.len(),
        beatmap_ids.len() <= usize::MAX,
    ensures
        ({
            let s = survivors(beatmap_ids, keep, wanted);
            &&& forall|j: int| 0 <= j < s.len() ==> (#[trigger] s[j]) < beatmap_ids.len() && keep[s[j] as int]
                && (wanted matches Some(w) ==> beatmap_ids[s[j] as int] == w)
            &&& forall|j: int, l: int| 0 <= j < l < s.len() ==> #[trigger] s[j] < #[trigger] s[l]
            &&& forall|i: int| 0 <= i < beatmap_ids.len() && keep[i] && (wanted matches Some(w) ==> beatmap_ids[i] == w)
                ==> exists|j: int| 0 <= j < s.len() && #[trigger] s[j] == i
        }),
{
    let n = beatmap_ids.len();
    let flags = Seq::new(n, |i: int| keep[i] && (wanted matches Some(w) ==> beatmap_ids[i] == w));
    lemma_kept_indices(n, flags);
    let s = survivors(beatmap_ids, keep, wanted);
    assert forall|j: int| 0 <= j < s.len() implies (#[trigger] s[j]) < beatmap_ids.len() && keep[s[j] as int]
        && (wanted matches Some(w) ==> beatmap_ids[s[j] as int] == w) by {
        assert(flags[s[j] as int]);
    }
    assert forall|i: int| 0 <= i < n && keep[i] && (wanted matches Some(w) ==> beatmap_ids[i] == w)
        implies exists|j: int| 0 <= j < s.len() && #[trigger] s[j] == i by {
        assert(flags[i]);
    }
}

/// What a query answers, case by case, over the scores left: nothing
/// fetched is "no records"; nothing left is "no match"; a single position
/// shows the score at that position among those left, or "out of range"
/// with the position and the count left; a range whose start is past the
/// last score left is "out of range"; a bare list shows all scores left, or
/// for a kind that cuts bare lists the first `limit` of them.
pub proof fn law_selection_cases(
    beatmap_ids: Seq<i64>,
    keep: Seq<bool>,
    wanted: Option<i64>,
    limit: u32,
    limit_end: Option<u32>,
    list_mode: bool,
    truncate_bare_list: bool,
)
    ensures
        ({
            let s = survivors(beatmap_ids, keep, wanted);
            let r = select_spec(beatmap_ids, keep, wanted, limit, limit_end, list_mode, truncate_bare_list);
            &&& beatmap_ids.len() == 0 ==> r.0 == 0
            &&& beatmap_ids.len() > 0 && s.len() == 0 ==> r.0 == 1
            &&& (beatmap_ids.len() > 0 && s.len() > 0 && !list_mode && limit_end is None && 1 <= limit <= s.len())
                ==> r.0 == 4 && r.2 == limit - 1 && r.3 =~= seq![s[limit - 1]]
            &&& (beatmap_ids.len() > 0 && s.len() > 0 && !list_mode && limit_end is None && limit > s.len())
                ==> r.0 == 2 && r.1 == limit && r.2 == s.len()
            &&& (beatmap_ids.len() > 0 && s.len() > 0 && limit_end is Some && 1 <= limit && limit - 1 >= s.len())
                ==> r.0 == 2 && r.1 == limit && r.2 == s.len()
            &&& (beatmap_ids.len() > 0 && s.len() > 0 && list_mode && limit_end is None) ==> r.0 == 3 && r.3.len() == (
                if truncate_bare_list && limit < s.len() { limit as int } else { s.len() as int }) && forall|j: int|
                0 <= j < r.3.len() ==> #[trigger] r.3[j] == s[j]
        }),
{
}

/// A range query whose start is among the scores left lists the scores left
/// from the start up to the range's end, cut at the last score left: it never
/// answers "out of range", and an end past the last score answers as an end
/// at the last score.
pub proof fn law_range_clamped_to_survivors(
    beatmap_ids: Seq<i64>,
    keep: Seq<bool>,
    wanted: Option<i64>,
    limit: u32,
    e: u32,
    list_mode: bool,
    truncate_bare_list: bool,
)
    requires
        beatmap_ids.len() > 0,
        1 <= limit,
        limit - 1 < survivors(beatmap_ids, keep, wanted).len(),
        limit - 1 <= e,
    ensures
        ({
            let s = survivors(beatmap_ids, keep, wanted);
            let end = if e < s.len() { e as int } else { s.len() as int };
            let r = select_spec(beatmap_ids, keep, wanted, limit, Some(e), list_mode, truncate_bare_list);
            &&& r.0 == 3
            &&& r.3.len() == end - (limit - 1)
            &&& forall|j: int| 0 <= j < r.3.len() ==> #[trigger] r.3[j] == s[limit - 1 + j]
            &&& (e >= s.len() && s.len() <= u32::MAX) ==> r == select_spec(
                beatmap_ids,
                keep,
                wanted,
                limit,
                Some(s.len() as u32),
                list_mode,
                truncate_bare_list,
            )
        }),
{
}

proof fn lemma_kept_len<T>(items: Seq<T>, keep: Seq<bool>)
    ensures
        kept(items, keep).len() <= items.len(),
    decreases items.len(),
{
    if items.len() > 0 {
        lemma_kept_len(items.drop_last(), keep);
    }
}

/// The beatmap that becomes the group's last once a score query fetched
/// scores: the first score's beatmap (its id cut to 32 bits), taken before
/// any filter; none when nothing was fetched.
#[verifier::truncate]
pub fn last_beatmap_after_fetch(beatmap_ids: &[i64]) -> (r: Option<u32>)
    ensures
        r == (if beatmap_ids@.len() > 0 { Some(beatmap_ids@[0] as u32) } else { None }),
{
    if beatmap_ids.len() > 0 {
        Some(beatmap_ids[0] as u32)
    } else {
        None
    }
}

/// The indices `0..n` in order.
pub open spec fn index_seq(n: nat) -> Seq<usize> {
    Seq::new(n, |i: int| i as usize)
}

/// Which fetched scores "today's best" keeps: those created in the last day.
pub open spec fn today_spec(created_at: Seq<String>, now_secs: i64, now_nanos: u32) -> Seq<usize> {
    kept(
        index_seq(created_at.len()),
        Seq::new(created_at.len(), |i: int| within_last_day(created_at[i]@, now_secs, now_nanos)),
    )
}

/// The indices of the fetched scores that "today's best" keeps, in order:
/// those created in the last day before now (see [`within_last_day`]).
/// The query goes on with these scores only, so when none is left it
/// answers with its "no records" message.
pub fn today_scores(created_at: &[String], now_secs: i64, now_nanos: u32) -> (r: Vec<usize>)
    requires
        now_secs >= i64::MIN + 86400,
    ensures
        r@ == today_spec(created_at@, now_secs, now_nanos),
{
    let flags = today_flags(created_at, now_secs, now_nanos);
    let n = created_at.len();
    let ghost idx = index_seq(n as nat);
    let ghost fs = Seq::new(n as nat, |i: int| within_last_day(created_at@[i]@, now_secs, now_nanos));
    assert(flags@ =~= fs);
    let mut out: Vec<usize> = Vec::new();
    let mut i: usize = 0;
    while i < n
        invariant
            i <= n,
            n == created_at@.len(),
            flags@ == fs,
            idx == index_seq(n as nat),
            fs.len() == n,
            out@ == kept(idx.take(i as int), fs),
        decreases n - i,
    {
        proof {
            assert(idx.take(i as int + 1).drop_last() =~= idx.take(i as int));
            assert(idx.take(i as int + 1).last() == i);
        }
        if flags[i] {
            out.push(i);
        }
        i = i + 1;
    }
    proof {
        assert(idx.take(n as int) =~= idx);
    }
    out
}

/// How many fetched scores are on the wanted beatmap (when one is wanted)
/// and pass the filters.
pub fn survivors_count(beatmap_ids: &[i64], keep: &[bool], wanted: Option<i64>) -> (r: usize)
    requires
        keep@.len() == beatmap_ids@.len(),
    ensures
        r == survivors(beatmap_ids@, keep@, wanted).len(),
{
    let n = beatmap_ids.len();
    let ghost idx = Seq::new(n as nat, |i: int| i as usize);
    let ghost flags = Seq::new(n as nat, |i: int| keep@[i] && (wanted matches Some(w) ==> beatmap_ids@[i] == w));
    let mut c: usize = 0;
    let mut i: usize = 0;
    while i < n
        invariant
            i <= n,
            n == beatmap_ids@.len(),
            keep@.len() == n,
            idx == Seq::new(n as nat, |i: int| i as usize),
            flags == Seq::new(n as nat, |i: int| keep@[i] && (wanted matches Some(w) ==> beatmap_ids@[i] == w)),
            c == kept(idx.take(i as int), flags).len(),
            c <= i,
        decreases n - i,
    {
        proof {
            assert(idx.take(i as int + 1).drop_last() =~= idx.take(i as int));
            assert(idx.take(i as int + 1).len() - 1 == i);
        }
        let on_map = match wanted {
            Some(w) => beatmap_ids[i] == w,
            None => true,
        };
        if keep[i] && on_map {
            c = c + 1;
        }
        i = i + 1;
    }
    proof {
        assert(idx.take(n as int) =~= idx);
    }
    c
}

/// Chooses the scores a query shows (see [`select_spec`]); `keep` says
/// which fetched scores pass the filters.
pub fn select_scores(beatmap_ids: &[i64], keep: &[bool], wanted: Option<i64>, limit: u32, limit_end: Option<u32>, list_mode: bool, truncate_bare_list: bool) -> (r: Selection)
    requires
        keep@.len() == beatmap_ids@.len(),
        beatmap_ids@.len() > 0 && survivors(beatmap_ids@, keep@, wanted).len() > 0 && (!list_mode || limit_end is Some) ==> limit >= 1,
        limit_end matches Some(e) && (e as int) < limit - 1 ==> limit - 1 >= survivors(beatmap_ids@, keep@, wanted).len(),
    ensures
        selection_view(r) == select_spec(beatmap_ids@, keep@, wanted, limit, limit_end, list_mode, truncate_bare_list),
{
    let n = beatmap_ids.len();
    if n == 0 {
        return Selection::NoRecords;
    }
    let ghost idx = Seq::new(n as nat, |i: int| i as usize);
    let ghost flags = Seq::new(n as nat, |i: int| keep@[i] && (wanted matches Some(w) ==> beatmap_ids@[i] == w));
    let mut s: Vec<usize> = Vec::new();
    let mut i: usize = 0;
    while i < n
        invariant
            i <= n,
            n == beatmap_ids@.len(),
            keep@.len() == n,
            idx == Seq::new(n as nat, |i: int| i as usize),
            flags == Seq::new(n as nat, |i: int| keep@[i] && (wanted matches Some(w) ==> beatmap_ids@[i] == w)),
            s@ == kept(idx.take(i as int), flags),
        decreases n - i,
    {
        let pass = keep[i] && match wanted {
            Some(w) => beatmap_ids[i] == w,
            None => true,
        };
        proof {
            assert(idx.take(i as int + 1).drop_last() =~= idx.take(i as int));
            assert(idx.take(i as int + 1).last() == i);
            assert(pass == flags[i as int]);
        }
        if pass {
            s.push(i);
        }
        i = i + 1;
    }
    proof {
        assert(idx.take(n as int) =~= idx);
        assert(s@ == survivors(beatmap_ids@, keep@, wanted));
        lemma_kept_len(idx, flags);
    }
    if s.len() == 0 {
        return Selection::NoMatch;
    }
    if list_mode || limit_end.is_some() {
        match limit_end {
            Some(e) => {
                let start = (limit - 1) as usize;
                if start >= s.len() {
                    return Selection::OutOfRange { pos: limit, total: s.len() };
                }
                let end: usize = if (e as usize) < s.len() {
                    e as usize
                } else {
                    s.len()
                };
                let mut out: Vec<usize> = Vec::new();
                let mut k = start;
                while k < end
                    invariant
                        start <= k <= end <= s@.len(),
                        out@ == s@.subrange(start as int, k as int),
                    decreases end - k,
                {
                    out.push(s[k]);
                    proof {
                        assert(out@ =~= s@.subrange(start as int, k as int + 1));
                    }
                    k = k + 1;
                }
                Selection::List(out)
            },
            None => {
                if truncate_bare_list && (limit as usize) < s.len() {
                    s.truncate(limit as usize);
                }
                Selection::List(s)
            },
        }
    } else {
        let index = (limit - 1) as usize;
        if index >= s.len() {
            return Selection::OutOfRange { pos: limit, total: s.len() };
        }
        Selection::Single { position: index, index: s[index] }
    }
}

/// Whether a shown score gets its unstable rate computed: a standard-mode
/// score (mode 0; 1 taiko, 2 catch, 3 mania) with an id and a replay.
pub fn wants_unstable_rate(mode: i32, score_id: i64, has_replay: bool) -> (r: bool)
    ensures
        r == (mode == 0 && score_id > 0 && has_replay),
{
    mode == 0 && score_id > 0 && has_replay
}

} // verus!
