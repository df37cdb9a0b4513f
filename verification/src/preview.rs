//! Beatmap previews: which beatmap a preview command shows, which mode it is
//! drawn in and whether that needs a conversion, which renderer draws it,
//! the file it is written to, and the times at which frames are taken.

use vstd::prelude::*;
use crate::last_beatmap_cache::LastBeatmapCache;
use crate::text::{chars_of, dec_digits, lowercase, push_all, push_str, string_of, to_lowercase, u64_digits};

verus! {

/// `n` sample times from `start` to `end`: a single `start` when `n` is at
/// most one or the range is empty; else `start + k * step` for `k` below
/// `n`, with `step` the range divided by `n - 1` (rounded down).
pub open spec fn samples_spec(start: i64, end: i64, n: nat) -> Seq<int> {
    if n <= 1 || start >= end {
        seq![start as int]
    } else {
        let step = (end - start) / ((n - 1) as int);
        Seq::new(n, |k: int| start + step * k)
    }
}

/// Sample times between `start` and `end` (see [`samples_spec`]).
pub fn generate_linear_samples(start: i64, end: i64, n: usize) -> (r: Vec<i64>)
    requires
        start < end ==> end - start <= i64::MAX,
        n <= i64::MAX,
    ensures
        r@.len() == samples_spec(start, end, n as nat).len(),
        forall|k: int| 0 <= k < r@.len() ==> r@[k] as int == #[trigger] samples_spec(start, end, n as nat)[k],
{
    if n <= 1 || start >= end {
        let mut v: Vec<i64> = Vec::new();
        v.push(start);
        return v;
    }
    let span: i64 = end - start;
    let step: i64 = span / ((n - 1) as i64);
    let ghost g = span as int / ((n - 1) as int);
    assert(step as int == g);
    let mut v: Vec<i64> = Vec::new();
    let mut k: usize = 0;
    while k < n
        invariant
            k <= n,
            start < end,
            span == end - start,
            n >= 2,
            n <= i64::MAX,
            step as int == (end - start) / ((n - 1) as int),
            0 <= step,
            v@.len() == k,
            forall|j: int| 0 <= j < k ==> v@[j] as int == start + step * j,
        decreases n - k,
    {
        assert(step * (k as int) <= end - start) by (nonlinear_arith)
            requires
                step as int == (end - start) / ((n - 1) as int),
                0 <= step,
                k < n,
                n >= 2,
                start < end,
        {
            assert(step * (n - 1) <= end - start);
            assert(step * (k as int) <= step * (n - 1));
        }
        assert(start + step * (k as int) <= end);
        let kk: i64 = k as i64;
        assert(kk as int == k as int);
        assert(0 <= step * (kk as int) <= end - start);
        let off: i64 = step * kk;
        let x: i64 = start + off;
        v.push(x);
        k = k + 1;
    }
    v
}

/// Every sample lies in the range, the first is its start, and the samples
/// never go down.
pub proof fn law_samples_in_range(start: i64, end: i64, n: nat)
    ensures
        samples_spec(start, end, n).len() >= 1,
        samples_spec(start, end, n)[0] == start,
        forall|k: int| 0 <= k < samples_spec(start, end, n).len() ==> start <= #[trigger] samples_spec(start, end, n)[k]
            && (start < end ==> samples_spec(start, end, n)[k] <= end),
        forall|j: int, k: int| 0 <= j <= k < samples_spec(start, end, n).len() ==> #[trigger] samples_spec(start, end, n)[j]
            <= #[trigger] samples_spec(start, end, n)[k],
{
    if n > 1 && start < end {
        let step = (end - start) / ((n - 1) as int);
        assert(0 <= step) by (nonlinear_arith)
            requires
                start < end,
                n > 1,
                step == (end - start) / ((n - 1) as int),
        ;
        let sp = samples_spec(start, end, n);
        assert forall|k: int| 0 <= k < n implies start <= #[trigger] sp[k] && sp[k] <= end by {
            assert(sp[k] == start + step * k);
            assert(0 <= step * k && step * k <= end - start) by (nonlinear_arith)
                requires
                    0 <= step,
                    0 <= k < n,
                    n > 1,
                    start < end,
                    step == (end - start) / ((n - 1) as int),
            {
                assert(step * (n - 1) <= end - start);
                assert(step * k <= step * (n - 1));
            }
        }
        assert forall|j: int, k: int| 0 <= j <= k < n implies #[trigger] sp[j] <= #[trigger] sp[k] by {
            assert(sp[j] == start + step * j);
            assert(sp[k] == start + step * k);
            assert(step * j <= step * k) by (nonlinear_arith)
                requires
                    0 <= step,
                    j <= k,
            ;
        }
    }
}

/// The frames of a preview: for one time, four samples within thirty
/// seconds around it, clipped to the map; for two times, four samples
/// between them, clipped to the map's end; otherwise the renderer chooses.
pub open spec fn frame_times_spec(times: Option<Seq<i64>>, end_time: i64) -> Option<Seq<int>> {
    match times {
        None => None,
        Some(t) => if t.len() == 1 {
            let a = t[0];
            let ws = if a - 30000 > 0 { a - 30000 } else { 0 };
            let we0 = if a + 30000 < end_time { a + 30000 } else { end_time as int };
            let we = if we0 > ws { we0 } else { ws };
            Some(samples_spec(ws as i64, we as i64, 4))
        } else if t.len() == 2 {
            let s = if t[0] < t[1] { t[0] } else { t[1] };
            let m = if t[0] > t[1] { t[0] } else { t[1] };
            let e0 = if m < end_time { m } else { end_time };
            let e = if e0 > s { e0 } else { s };
            Some(samples_spec(s, e, 4))
        } else {
            None
        },
    }
}

/// The arithmetic of [`frame_times_spec`] stays within `i64` (the sum and
/// differences it takes would overflow for times at the ends of the range).
pub open spec fn frame_times_fit(times: Option<Seq<i64>>, end_time: i64) -> bool {
    match times {
        Some(t) => if t.len() == 1 {
            i64::MIN + 30000 <= t[0] <= i64::MAX - 30000 && (end_time as int) - (if t[0] - 30000 > 0 {
                t[0] - 30000
            } else {
                0
            }) <= i64::MAX
        } else if t.len() == 2 {
            (if t[0] > t[1] { t[0] } else { t[1] }) - (if t[0] < t[1] { t[0] } else { t[1] }) <= i64::MAX
        } else {
            true
        },
        None => true,
    }
}

/// Whether [`frame_times`] can be asked for these times (see [`frame_times_fit`]).
pub fn frame_times_in_range(times: &Option<Vec<i64>>, end_time: i64) -> (b: bool)
    ensures
        b == frame_times_fit(match times { Some(t) => Some(t@), None => None }, end_time),
{
    match times {
        None => true,
        Some(t) => {
            if t.len() == 1 {
                let a = t[0] as i128;
                if a < i64::MIN as i128 + 30000 || a > i64::MAX as i128 - 30000 {
                    return false;
                }
                let ws: i128 = if a - 30000 > 0 { a - 30000 } else { 0 };
                end_time as i128 - ws <= i64::MAX as i128
            } else if t.len() == 2 {
                let x = t[0] as i128;
                let y = t[1] as i128;
                let hi = if x > y { x } else { y };
                let lo = if x < y { x } else { y };
                hi - lo <= i64::MAX as i128
            } else {
                true
            }
        },
    }
}

/// The frame times of a preview (see [`frame_times_spec`]).
pub fn frame_times(times: &Option<Vec<i64>>, end_time: i64) -> (r: Option<Vec<i64>>)
    requires
        frame_times_fit(match times { Some(t) => Some(t@), None => None }, end_time),
    ensures
        match r {
            None => frame_times_spec(match times { Some(t) => Some(t@), None => None }, end_time) is None,
            Some(v) => frame_times_spec(match times { Some(t) => Some(t@), None => None }, end_time) matches Some(s)
                && v@.len() == s.len() && forall|k: int| 0 <= k < s.len() ==> v@[k] as int == s[k],
        },
{
    match times {
        None => None,
        Some(t) => {
            if t.len() == 1 {
                let a = t[0];
                let ws: i64 = if a - 30000 > 0 {
                    a - 30000
                } else {
                    0
                };
                let we0: i64 = if a + 30000 < end_time {
                    a + 30000
                } else {
                    end_time
                };
                let we: i64 = if we0 > ws {
                    we0
                } else {
                    ws
                };
                let v = generate_linear_samples(ws, we, 4);
                Some(v)
            } else if t.len() == 2 {
                let s: i64 = if t[0] < t[1] {
                    t[0]
                } else {
                    t[1]
                };
                let m: i64 = if t[0] > t[1] {
                    t[0]
                } else {
                    t[1]
                };
                let e0: i64 = if m < end_time {
                    m
                } else {
                    end_time
                };
                let e: i64 = if e0 > s {
                    e0
                } else {
                    s
                };
                let v = generate_linear_samples(s, e, 4);
                Some(v)
            } else {
                None
            }
        },
    }
}

/// Which beatmap a preview command shows, before any request.
#[derive(Debug, Clone, Copy, PartialEq, Eq)]
pub enum PreviewTarget {
    /// This beatmap.
    Beatmap(u32),
    /// The beatmap of this score, once fetched.
    Score(u64),
    /// An error message key.
    Refused(&'static str),
}

/// The view of a preview target.
pub open spec fn target_view(t: PreviewTarget) -> (int, int, Seq<char>) {
    match t {
        PreviewTarget::Beatmap(b) => (0, b as int, Seq::empty()),
        PreviewTarget::Score(s) => (1, s as int, Seq::empty()),
        PreviewTarget::Refused(k) => (2, 0, k@),
    }
}

/// The beatmap of a preview command: its beatmap id, or the beatmap of its
/// score id; with neither, the group's last beatmap if it is still fresh,
/// else a request for a beatmap; with both, a refusal. The cache is read
/// only when the command gives neither.
pub fn preview_target(cache: &mut LastBeatmapCache, group_id: i64, score_id: Option<u64>, beatmap_id: Option<u32>) -> (r: PreviewTarget)
    ensures
        final(cache).ttl() == old(cache).ttl(),
        match (score_id, beatmap_id) {
            (None, Some(b)) => r == PreviewTarget::Beatmap(b) && final(cache).entries() == old(cache).entries(),
            (Some(s), None) => r == PreviewTarget::Score(s) && final(cache).entries() == old(cache).entries(),
            (Some(_), Some(_)) => target_view(r) == (2int, 0int, "error.data_fetch_failed"@) && final(cache).entries() == old(cache).entries(),
            (None, None) => match r {
                PreviewTarget::Beatmap(b) => old(cache).entries().contains_key(group_id)
                    && old(cache).entries()[group_id].0 == b && final(cache).entries() == old(cache).entries(),
                PreviewTarget::Refused(k) => k@ == "query.need_beatmap_or_cache"@
                    && final(cache).entries() == old(cache).entries().remove(group_id),
                _ => false,
            },
        },
{
    match (score_id, beatmap_id) {
        (None, Some(b)) => PreviewTarget::Beatmap(b),
        (Some(s), None) => PreviewTarget::Score(s),
        (Some(_), Some(_)) => PreviewTarget::Refused("error.data_fetch_failed"),
        (None, None) => match cache.get(group_id) {
            Some(b) => PreviewTarget::Beatmap(b),
            None => PreviewTarget::Refused("query.need_beatmap_or_cache"),
        },
    }
}

/// A score's beatmap id as a `u32`, when it fits.
pub fn beatmap_id_of_score(id: i64) -> (r: Option<u32>)
    ensures
        r == (if 0 <= id <= u32::MAX { Some(id as u32) } else { None }),
{
    if 0 <= id && id <= 4294967295 {
        Some(id as u32)
    } else {
        None
    }
}

/// How the beatmap reaches the mode it is drawn in.
#[derive(Debug, Clone, Copy, PartialEq, Eq, Structural)]
pub enum Conversion {
    /// It is already in that mode.
    Same,
    /// A standard map is converted.
    Convert,
    /// Only standard maps convert: the preview is refused.
    Unsupported,
}

/// How a map of mode `source` reaches mode `target`.
pub fn conversion(target: i32, source: i32) -> (r: Conversion)
    ensures
        r == (if target == source {
            Conversion::Same
        } else if source != 0 {
            Conversion::Unsupported
        } else {
            Conversion::Convert
        }),
{
    if target == source {
        Conversion::Same
    } else if source != 0 {
        Conversion::Unsupported
    } else {
        Conversion::Convert
    }
}

/// The renderers.
#[derive(Debug, Clone, Copy, PartialEq, Eq, Structural)]
pub enum RenderKind {
    StandardGif,
    TaikoGif,
    TaikoGrid,
    CatchGif,
    CatchGrid,
    ManiaGif,
    ManiaGrid,
    Unsupported,
}

/// Standard maps are always animated; the other modes are animated on
/// request, else drawn as a grid.
pub fn use_gif(gif: bool, target_mode: i32) -> (r: bool)
    ensures
        r == (gif || target_mode == 0),
{
    gif || target_mode == 0
}

/// The renderer of a mode (0 standard, 1 taiko, 2 catch, 3 mania).
pub fn render_kind(target_mode: i32, gif: bool) -> (r: RenderKind)
    ensures
        r == (if target_mode == 0 {
            RenderKind::StandardGif
        } else if target_mode == 1 {
            if gif { RenderKind::TaikoGif } else { RenderKind::TaikoGrid }
        } else if target_mode == 2 {
            if gif { RenderKind::CatchGif } else { RenderKind::CatchGrid }
        } else if target_mode == 3 {
            if gif { RenderKind::ManiaGif } else { RenderKind::ManiaGrid }
        } else {
            RenderKind::Unsupported
        }),
{
    if target_mode == 0 {
        RenderKind::StandardGif
    } else if target_mode == 1 {
        if gif {
            RenderKind::TaikoGif
        } else {
            RenderKind::TaikoGrid
        }
    } else if target_mode == 2 {
        if gif {
            RenderKind::CatchGif
        } else {
            RenderKind::CatchGrid
        }
    } else if target_mode == 3 {
        if gif {
            RenderKind::ManiaGif
        } else {
            RenderKind::ManiaGrid
        }
    } else {
        RenderKind::Unsupported
    }
}

/// Lower-case hexadecimal digits of `n`, most significant first.
pub open spec fn hex_digits(n: nat) -> Seq<char>
    decreases n,
{
    if n < 16 {
        seq![hex_char(n as int)]
    } else {
        hex_digits(n / 16).push(hex_char((n % 16) as int))
    }
}

/// The lower-case hexadecimal digit of `d`.
pub open spec fn hex_char(d: int) -> char {
    if d < 10 {
        ((d + 48) as u32) as char
    } else {
        ((d + 87) as u32) as char
    }
}

fn hex_char_exec(d: u128) -> (c: char)
    requires
        d < 16,
    ensures
        c == hex_char(d as int),
{
    if d == 0 { '0' }
    else if d == 1 { '1' }
    else if d == 2 { '2' }
    else if d == 3 { '3' }
    else if d == 4 { '4' }
    else if d == 5 { '5' }
    else if d == 6 { '6' }
    else if d == 7 { '7' }
    else if d == 8 { '8' }
    else if d == 9 { '9' }
    else if d == 10 { 'a' }
    else if d == 11 { 'b' }
    else if d == 12 { 'c' }
    else if d == 13 { 'd' }
    else if d == 14 { 'e' }
    else { 'f' }
}

/// Hexadecimal digits of `n` (what `{:x}` writes).
pub fn hex_of(n: u128) -> (v: Vec<char>)
    ensures
        v@ == hex_digits(n as nat),
    decreases n,
{
    if n < 16 {
        let mut v = Vec::new();
        v.push(hex_char_exec(n));
        v
    } else {
        let mut v = hex_of(n / 16);
        v.push(hex_char_exec(n % 16));
        v
    }
}

/// The preview's file name: the beatmap id, the mod suffix when there is
/// one, the time in hexadecimal nanoseconds, and `gif` or `png`.
pub open spec fn preview_filename_spec(beatmap_id: u32, mod_suffix: Seq<char>, nanos: u128, gif: bool) -> Seq<char> {
    let ext = if gif { "gif"@ } else { "png"@ };
    if mod_suffix.len() == 0 {
        dec_digits(beatmap_id as nat) + "_"@ + hex_digits(nanos as nat) + "."@ + ext
    } else {
        dec_digits(beatmap_id as nat) + "_"@ + mod_suffix + "_"@ + hex_digits(nanos as nat) + "."@ + ext
    }
}

/// The preview's file name (see [`preview_filename_spec`]).
pub fn preview_filename(beatmap_id: u32, mod_suffix: &str, nanos: u128, gif: bool) -> (r: String)
    ensures
        r@ == preview_filename_spec(beatmap_id, mod_suffix@, nanos, gif),
{
    let mut v = u64_digits(beatmap_id as u64);
    push_str(&mut v, "_");
    let suffix = chars_of(mod_suffix);
    if suffix.len() > 0 {
        push_all(&mut v, &suffix);
        push_str(&mut v, "_");
    }
    let h = hex_of(nanos);
    push_all(&mut v, &h);
    push_str(&mut v, ".");
    if gif {
        push_str(&mut v, "gif");
    } else {
        push_str(&mut v, "png");
    }
    string_of(&v)
}

/// Pieces joined with `sep` between each two.
pub open spec fn joined(pieces: Seq<Seq<char>>, sep: Seq<char>) -> Seq<char>
    decreases pieces.len(),
{
    if pieces.len() == 0 {
        Seq::empty()
    } else if pieces.len() == 1 {
        pieces[0]
    } else {
        joined(pieces.drop_last(), sep) + sep + pieces.last()
    }
}

fn join_with(pieces: &Vec<Vec<char>>, sep: &str) -> (r: Vec<char>)
    ensures
        r@ == joined(pieces@.map_values(|p: Vec<char>| p@), sep@),
{
    let ghost views = pieces@.map_values(|p: Vec<char>| p@);
    let mut r: Vec<char> = Vec::new();
    let mut i: usize = 0;
    while i < pieces.len()
        invariant
            i <= pieces@.len(),
            views == pieces@.map_values(|p: Vec<char>| p@),
            r@ == joined(views.take(i as int), sep@),
        decreases pieces.len() - i,
    {
        assert(views.take(i as int + 1).drop_last() =~= views.take(i as int));
        assert(views.take(i as int + 1).last() == pieces@[i as int]@);
        if i > 0 {
            push_str(&mut r, sep);
        } else {
            assert(views.take(1) =~= seq![pieces@[0]@]);
        }
        push_all(&mut r, &pieces[i]);
        i = i + 1;
    }
    assert(views.take(pieces@.len() as int) =~= views);
    r
}

/// The mods of a preview command as one text for the mod parser: joined with `+`.
pub fn join_mods(mods: &Vec<String>) -> (r: String)
    ensures
        r@ == joined(mods@.map_values(|m: String| m@), "+"@),
{
    let mut pieces: Vec<Vec<char>> = Vec::new();
    let mut i: usize = 0;
    while i < mods.len()
        invariant
            i <= mods@.len(),
            pieces@.map_values(|p: Vec<char>| p@) == mods@.take(i as int).map_values(|m: String| m@),
        decreases mods.len() - i,
    {
        let ghost before = pieces@;
        let piece = chars_of(mods[i].as_str());
        pieces.push(piece);
        assert(pieces@.map_values(|p: Vec<char>| p@) =~= before.map_values(|p: Vec<char>| p@).push(mods@[i as int]@));
        assert(mods@.take(i as int + 1).map_values(|m: String| m@) =~= mods@.take(i as int).map_values(|m: String| m@).push(mods@[i as int]@));
        i = i + 1;
    }
    assert(mods@.take(mods@.len() as int) =~= mods@);
    string_of(&join_with(&pieces, "+"))
}

/// The mod part of a preview's file name: the parsed mod tokens in lower
/// case joined with `+`.
pub fn mod_suffix(tokens: &Vec<String>) -> (r: String)
    ensures
        r@ == joined(tokens@.map_values(|t: String| lowercase(t@)), "+"@),
{
    let mut pieces: Vec<Vec<char>> = Vec::new();
    let mut i: usize = 0;
    while i < tokens.len()
        invariant
            i <= tokens@.len(),
            pieces@.map_values(|p: Vec<char>| p@) == tokens@.take(i as int).map_values(|t: String| lowercase(t@)),
        decreases tokens.len() - i,
    {
        let low = to_lowercase(tokens[i].as_str());
        let ghost before = pieces@;
        let piece = chars_of(low.as_str());
        pieces.push(piece);
        assert(pieces@.map_values(|p: Vec<char>| p@) =~= before.map_values(|p: Vec<char>| p@).push(lowercase(tokens@[i as int]@)));
        assert(tokens@.take(i as int + 1).map_values(|t: String| lowercase(t@)) =~= tokens@.take(i as int).map_values(|t: String| lowercase(t@)).push(lowercase(tokens@[i as int]@)));
        i = i + 1;
    }
    assert(tokens@.take(tokens@.len() as int) =~= tokens@);
    string_of(&join_with(&pieces, "+"))
}

} // verus!
