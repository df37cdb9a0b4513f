//! What a match notification says: event labels, the lobby text, the text
//! sent when a card cannot be drawn, and the player and team lists a card is
//! drawn from. Rendering, numbers with decimals and images are left to the
//! caller, which finds each score again by its index.

use vstd::prelude::*;
use crate::sort::{order_by_desc, is_desc_stable_order};
use crate::text::{
    chars_eq, chars_lt, chars_of, eq_str, int_to_dec, join_lines, join_with_newlines,
    lemma_seq_lt_order, lemma_seq_lt_trans, push_all, push_str, seq_lt, string_of, trim, trim_spec,
    u64_digits,
};

verus! {

/// A user of the match.
#[derive(Debug, Clone)]
pub struct MatchUser {
    pub id: u64,
    pub username: String,
    pub avatar_url: Option<String>,
}

/// One player's score in a game, as far as ordering and team totals read it.
#[derive(Debug, Clone)]
pub struct MatchGameScore {
    pub user_id: u64,
    /// The score the match counts (the API's total when present, else its score).
    pub effective_score: i64,
    pub team: String,
    /// Whether the player passed the map.
    pub passed: bool,
    /// The acronyms of the mods the player used.
    pub mods: Vec<String>,
}

/// What a card shows of the game's beatmap (the difficulty).
#[derive(Debug, Clone)]
pub struct BeatmapInfo {
    pub version: String,
    pub mode: String,
}

/// What a card shows of the game's beatmap set.
#[derive(Debug, Clone)]
pub struct BeatmapsetInfo {
    pub artist: String,
    pub title: String,
    pub creator: String,
}

/// A played game.
#[derive(Debug, Clone)]
pub struct MatchGame {
    pub beatmap_id: Option<u64>,
    pub beatmap: Option<BeatmapInfo>,
    pub beatmapset: Option<BeatmapsetInfo>,
    pub end_time: Option<String>,
    /// The acronyms of the mods selected for the game.
    pub mods: Vec<String>,
    pub team_type: String,
    pub scoring_type: String,
    pub scores: Vec<MatchGameScore>,
}

/// A player row of a result card.
#[derive(Debug, Clone)]
pub struct PlayerEntry {
    /// 1 for the first row.
    pub placement: usize,
    pub username: String,
    pub avatar_url: Option<String>,
    pub team: Option<String>,
    /// The counted score, negative values shown as 0.
    pub score: u64,
    /// Which score of the game this row shows; `None` for a roster row before any score exists.
    pub score_index: Option<usize>,
    pub passed: bool,
    /// The acronyms of the player's mods.
    pub mods: Vec<String>,
}

/// A team's total in a game.
#[derive(Debug, Clone)]
pub struct TeamResult {
    pub team: String,
    pub score: u64,
    pub is_winner: bool,
}

/// The event types the listener knows a label for.
pub open spec fn known_event_type(t: Seq<char>) -> bool {
    t == "match-created"@ || t == "match-disbanded"@ || t == "player-joined"@ || t == "player-left"@
        || t == "player-kicked"@ || t == "host-changed"@ || t == "beatmap-changed"@ || t == "match-started"@
        || t == "other"@
}

proof fn lemma_event_literals()
    ensures
        "match-created"@ =~= seq!['m', 'a', 't', 'c', 'h', '-', 'c', 'r', 'e', 'a', 't', 'e', 'd'],
        "match-disbanded"@ =~= seq!['m', 'a', 't', 'c', 'h', '-', 'd', 'i', 's', 'b', 'a', 'n', 'd', 'e', 'd'],
        "player-joined"@ =~= seq!['p', 'l', 'a', 'y', 'e', 'r', '-', 'j', 'o', 'i', 'n', 'e', 'd'],
        "player-left"@ =~= seq!['p', 'l', 'a', 'y', 'e', 'r', '-', 'l', 'e', 'f', 't'],
        "player-kicked"@ =~= seq!['p', 'l', 'a', 'y', 'e', 'r', '-', 'k', 'i', 'c', 'k', 'e', 'd'],
        "host-changed"@ =~= seq!['h', 'o', 's', 't', '-', 'c', 'h', 'a', 'n', 'g', 'e', 'd'],
        "beatmap-changed"@ =~= seq!['b', 'e', 'a', 't', 'm', 'a', 'p', '-', 'c', 'h', 'a', 'n', 'g', 'e', 'd'],
        "match-started"@ =~= seq!['m', 'a', 't', 'c', 'h', '-', 's', 't', 'a', 'r', 't', 'e', 'd'],
        "other"@ =~= seq!['o', 't', 'h', 'e', 'r'],
        "比赛创建"@ =~= seq!['比', '赛', '创', '建'],
        "比赛解散"@ =~= seq!['比', '赛', '解', '散'],
        "玩家加入"@ =~= seq!['玩', '家', '加', '入'],
        "玩家离开"@ =~= seq!['玩', '家', '离', '开'],
        "玩家被踢出"@ =~= seq!['玩', '家', '被', '踢', '出'],
        "房主变更"@ =~= seq!['房', '主', '变', '更'],
        "选图变更"@ =~= seq!['选', '图', '变', '更'],
        "比赛开始"@ =~= seq!['比', '赛', '开', '始'],
        "场次结束"@ =~= seq!['场', '次', '结', '束'],
{
    reveal_strlit("match-created");
    reveal_strlit("match-disbanded");
    reveal_strlit("player-joined");
    reveal_strlit("player-left");
    reveal_strlit("player-kicked");
    reveal_strlit("host-changed");
    reveal_strlit("beatmap-changed");
    reveal_strlit("match-started");
    reveal_strlit("other");
    reveal_strlit("比赛创建");
    reveal_strlit("比赛解散");
    reveal_strlit("玩家加入");
    reveal_strlit("玩家离开");
    reveal_strlit("玩家被踢出");
    reveal_strlit("房主变更");
    reveal_strlit("选图变更");
    reveal_strlit("比赛开始");
    reveal_strlit("场次结束");
}

/// Each known event type has its own label: a player kicked reads
/// 玩家被踢出, and no two known event types share a label.
pub proof fn law_event_labels_distinct(t1: Seq<char>, t2: Seq<char>)
    requires
        known_event_type(t1),
        known_event_type(t2),
        t1 != t2,
    ensures
        event_label_spec(t1) != event_label_spec(t2),
        event_label_spec("match-created"@) == "比赛创建"@,
        event_label_spec("match-disbanded"@) == "比赛解散"@,
        event_label_spec("player-joined"@) == "玩家加入"@,
        event_label_spec("player-left"@) == "玩家离开"@,
        event_label_spec("player-kicked"@) == "玩家被踢出"@,
        event_label_spec("host-changed"@) == "房主变更"@,
        event_label_spec("beatmap-changed"@) == "选图变更"@,
        event_label_spec("match-started"@) == "比赛开始"@,
        event_label_spec("other"@) == "场次结束"@,
        !known_event_type(t1) ==> event_label_spec(t1) == "事件"@,
{
    lemma_event_literals();
}

/// The Chinese label of an event type.
pub open spec fn event_label_spec(t: Seq<char>) -> Seq<char> {
    if t == "match-created"@ {
        "比赛创建"@
    } else if t == "match-disbanded"@ {
        "比赛解散"@
    } else if t == "player-joined"@ {
        "玩家加入"@
    } else if t == "player-left"@ {
        "玩家离开"@
    } else if t == "player-kicked"@ {
        "玩家被踢出"@
    } else if t == "host-changed"@ {
        "房主变更"@
    } else if t == "beatmap-changed"@ {
        "选图变更"@
    } else if t == "match-started"@ {
        "比赛开始"@
    } else if t == "other"@ {
        "场次结束"@
    } else {
        "事件"@
    }
}

/// The Chinese label of an event type.
pub fn event_label(event_type: &str) -> (r: &'static str)
    ensures
        r@ == event_label_spec(event_type@),
{
    if eq_str(event_type, "match-created") {
        "比赛创建"
    } else if eq_str(event_type, "match-disbanded") {
        "比赛解散"
    } else if eq_str(event_type, "player-joined") {
        "玩家加入"
    } else if eq_str(event_type, "player-left") {
        "玩家离开"
    } else if eq_str(event_type, "player-kicked") {
        "玩家被踢出"
    } else if eq_str(event_type, "host-changed") {
        "房主变更"
    } else if eq_str(event_type, "beatmap-changed") {
        "选图变更"
    } else if eq_str(event_type, "match-started") {
        "比赛开始"
    } else if eq_str(event_type, "other") {
        "场次结束"
    } else {
        "事件"
    }
}

/// User references in the API's text are kept as the API wrote them.
pub fn map_user_references(text: &str, users: &[MatchUser]) -> (r: String)
    ensures
        r@ == text@,
{
    let mut i: usize = 0;
    while i < users.len()
        invariant
            i <= users.len(),
        decreases users.len() - i,
    {
        i = i + 1;
    }
    string_of(&chars_of(text))
}

/// The lobby notification: `【match】label` and then the event's text on the next line.
pub fn format_lobby_text(event_type: &str, raw_text: &str, users: &[MatchUser], match_name: &str) -> (r: String)
    ensures
        r@ == "【"@ + match_name@ + "】"@ + event_label_spec(event_type@) + seq!['\n'] + raw_text@,
{
    let text = map_user_references(raw_text, users);
    let mut v: Vec<char> = Vec::new();
    push_str(&mut v, "【");
    push_str(&mut v, match_name);
    push_str(&mut v, "】");
    push_str(&mut v, event_label(event_type));
    v.push('\n');
    push_str(&mut v, text.as_str());
    string_of(&v)
}

/// The lines of the text sent for a started game when its card cannot be drawn.
pub open spec fn start_fallback_lines(game: MatchGame, users: Seq<MatchUser>, match_name: Seq<char>) -> Seq<Seq<char>> {
    let head = seq![
        "【"@ + match_name + "】场次开始"@,
        "选图：Beatmap #"@ + match game.beatmap_id {
            Some(id) => int_to_dec(id as int),
            None => "未知"@,
        },
        "参加玩家："@,
    ];
    if users.len() == 0 {
        head.push("- 暂无玩家信息"@)
    } else {
        head + users.map_values(|u: MatchUser| "- "@ + u.username@)
    }
}

/// The text sent for a started game when its card cannot be drawn: the
/// match, the beatmap and the players.
pub fn format_game_start_fallback_text(game: &MatchGame, users: &[MatchUser], match_name: &str) -> (r: String)
    ensures
        r@ == join_lines(start_fallback_lines(*game, users@, match_name@)),
{
    let mut lines: Vec<Vec<char>> = Vec::new();
    let mut l0: Vec<char> = Vec::new();
    push_str(&mut l0, "【");
    push_str(&mut l0, match_name);
    push_str(&mut l0, "】场次开始");
    lines.push(l0);
    let mut l1: Vec<char> = Vec::new();
    push_str(&mut l1, "选图：Beatmap #");
    match game.beatmap_id {
        Some(id) => {
            let d = u64_digits(id);
            push_all(&mut l1, &d);
        },
        None => push_str(&mut l1, "未知"),
    }
    lines.push(l1);
    lines.push(chars_of("参加玩家："));
    let ghost head = lines@.map_values(|l: Vec<char>| l@);
    if users.len() == 0 {
        lines.push(chars_of("- 暂无玩家信息"));
    } else {
        let mut i: usize = 0;
        while i < users.len()
            invariant
                i <= users.len(),
                lines@.len() == 3 + i,
                lines@.map_values(|l: Vec<char>| l@) == head + users@.take(i as int).map_values(
                    |u: MatchUser| "- "@ + u.username@,
                ),
            decreases users.len() - i,
        {
            let mut li: Vec<char> = Vec::new();
            push_str(&mut li, "- ");
            push_str(&mut li, users[i].username.as_str());
            lines.push(li);
            assert(users@.take(i as int + 1).map_values(|u: MatchUser| "- "@ + u.username@) =~= users@.take(
                i as int,
            ).map_values(|u: MatchUser| "- "@ + u.username@).push("- "@ + users@[i as int].username@));
            assert(lines@.map_values(|l: Vec<char>| l@) =~= (head + users@.take(i as int).map_values(
                |u: MatchUser| "- "@ + u.username@,
            )).push(lines@[3 + i as int]@));
            i = i + 1;
        }
        assert(users@.take(users.len() as int) =~= users@);
    }
    assert(lines@.map_values(|l: Vec<char>| l@) =~= start_fallback_lines(*game, users@, match_name@));
    string_of(&join_with_newlines(&lines))
}

/// A user's avatar: the given URL when it is not blank, else the osu! avatar
/// address for a positive id, else none.
pub open spec fn avatar_spec(u: MatchUser) -> Option<Seq<char>> {
    if u.avatar_url matches Some(a) && trim_spec(a@).len() > 0 {
        Some(u.avatar_url.unwrap()@)
    } else if u.id > 0 {
        Some("https://a.ppy.sh/"@ + int_to_dec(u.id as int))
    } else {
        None
    }
}

/// A user's avatar URL (see [`avatar_spec`]).
pub fn avatar_url_for_user(user: &MatchUser) -> (r: Option<String>)
    ensures
        match r {
            Some(s) => avatar_spec(*user) == Some(s@),
            None => avatar_spec(*user) is None,
        },
{
    if let Some(url) = &user.avatar_url {
        let t = trim(&chars_of(url.as_str()));
        if t.len() > 0 {
            return Some(url.clone());
        }
    }
    if user.id > 0 {
        let mut v = chars_of("https://a.ppy.sh/");
        let d = u64_digits(user.id);
        push_all(&mut v, &d);
        Some(string_of(&v))
    } else {
        None
    }
}

/// Index of the first user with this id.
pub open spec fn find_user(users: Seq<MatchUser>, id: u64) -> Option<int>
    decreases users.len(),
{
    if users.len() == 0 {
        None
    } else if users[0].id == id {
        Some(0)
    } else {
        match find_user(users.subrange(1, users.len() as int), id) {
            Some(i) => Some(i + 1),
            None => None,
        }
    }
}

/// Index of the first user with this id.
pub fn find_user_index(users: &[MatchUser], id: u64) -> (r: Option<usize>)
    ensures
        match r {
            Some(i) => find_user(users@, id) == Some(i as int) && i < users@.len(),
            None => find_user(users@, id) is None,
        },
{
    let mut i: usize = 0;
    assert(users@.subrange(0, users@.len() as int) =~= users@);
    while i < users.len()
        invariant
            i <= users.len(),
            find_user(users@, id) == match find_user(users@.subrange(i as int, users@.len() as int), id) {
                Some(k) => Some(k + i),
                None => None::<int>,
            },
        decreases users.len() - i,
    {
        assert(users@.subrange(i as int, users@.len() as int).subrange(1, users@.len() - i)
            =~= users@.subrange(i as int + 1, users@.len() as int));
        assert(users@.subrange(i as int, users@.len() as int)[0] == users@[i as int]);
        if users[i].id == id {
            return Some(i);
        }
        i = i + 1;
    }
    None
}

/// The name shown for a score's player: the user's name, or "未知玩家" when the user is not listed.
pub open spec fn player_name(users: Seq<MatchUser>, id: u64) -> Seq<char> {
    match find_user(users, id) {
        Some(i) => users[i].username@,
        None => "未知玩家"@,
    }
}

/// A counted score as shown: negative values as 0.
pub open spec fn shown_score(s: i64) -> u64 {
    if s < 0 { 0 } else { s as u64 }
}

/// The rows of a result card, or `None` when the card cannot be drawn (no
/// beatmap, or a finished game without scores). A game that has neither
/// ended nor any score lists the match's users instead.
pub open spec fn players_ok(game: MatchGame, users: Seq<MatchUser>, rows: Seq<PlayerEntry>) -> bool {
    if game.scores@.len() == 0 && game.end_time is None {
        &&& rows.len() == users.len()
        &&& forall|i: int| 0 <= i < rows.len() ==> {
            let r = #[trigger] rows[i];
            &&& r.placement == i + 1
            &&& r.username@ == users[i].username@
            &&& (match r.avatar_url { Some(a) => Some(a@), None => None::<Seq<char>> }) == avatar_spec(users[i])
            &&& r.team is None
            &&& r.score == 0
            &&& r.score_index is None
            &&& r.passed
            &&& r.mods@.len() == 0
        }
    } else {
        let keys = game.scores@.map_values(|s: MatchGameScore| s.effective_score as i128);
        let order = rows.map_values(|r: PlayerEntry| r.score_index.unwrap());
        &&& rows.len() == game.scores@.len()
        &&& forall|i: int| 0 <= i < rows.len() ==> (#[trigger] rows[i]).score_index is Some
        &&& is_desc_stable_order(keys, order, keys.len() as int)
        &&& forall|i: int| 0 <= i < rows.len() ==> {
            let r = #[trigger] rows[i];
            let s = game.scores@[r.score_index.unwrap() as int];
            &&& r.placement == i + 1
            &&& r.username@ == player_name(users, s.user_id)
            &&& (match r.avatar_url { Some(a) => Some(a@), None => None::<Seq<char>> }) == (match find_user(users, s.user_id) {
                Some(k) => avatar_spec(users[k]),
                None => None,
            })
            &&& (match r.team { Some(t) => Some(t@), None => None::<Seq<char>> }) == (if s.team@.len() == 0 {
                None
            } else {
                Some(s.team@)
            })
            &&& r.score == shown_score(s.effective_score)
            &&& r.passed == s.passed
            &&& r.mods@ == s.mods@
        }
    }
}

/// The card can be drawn: it has a beatmap, and scores unless the game is still being played.
pub open spec fn players_drawable(game: MatchGame) -> bool {
    game.beatmap_id is Some && (game.scores@.len() > 0 || game.end_time is None)
}

/// The player rows of a result card: by counted score from high to low
/// (ties in reported order); for a game with neither an end nor scores, the
/// match's users in order. `None` when there is no beatmap, or when a finished
/// game has no scores.
pub fn build_players(game: &MatchGame, users: &[MatchUser]) -> (r: Option<Vec<PlayerEntry>>)
    ensures
        r is Some == players_drawable(*game),
        r matches Some(rows) ==> players_ok(*game, users@, rows@),
{
    if game.beatmap_id.is_none() {
        return None;
    }
    let mut rows: Vec<PlayerEntry> = Vec::new();
    if game.scores.len() == 0 && game.end_time.is_none() {
        let mut i: usize = 0;
        while i < users.len()
            invariant
                i <= users.len(),
                rows@.len() == i,
                forall|j: int| 0 <= j < i ==> {
                    let r = #[trigger] rows@[j];
                    &&& r.placement == j + 1
                    &&& r.username@ == users@[j].username@
                    &&& (match r.avatar_url { Some(a) => Some(a@), None => None::<Seq<char>> }) == avatar_spec(users@[j])
                    &&& r.team is None
                    &&& r.score == 0
                    &&& r.score_index is None
                    &&& r.passed
                    &&& r.mods@.len() == 0
                },
            decreases users.len() - i,
        {
            let u = &users[i];
            rows.push(PlayerEntry {
                placement: i + 1,
                username: u.username.clone(),
                avatar_url: avatar_url_for_user(u),
                team: None,
                score: 0,
                score_index: None,
                passed: true,
                mods: Vec::new(),
            });
            i = i + 1;
        }
        return Some(rows);
    }
    if game.scores.len() == 0 {
        return None;
    }
    let mut keys: Vec<i128> = Vec::new();
    let mut k: usize = 0;
    while k < game.scores.len()
        invariant
            k <= game.scores.len(),
            keys@ == game.scores@.take(k as int).map_values(|s: MatchGameScore| s.effective_score as i128),
        decreases game.scores.len() - k,
    {
        keys.push(game.scores[k].effective_score as i128);
        assert(game.scores@.take(k as int + 1).map_values(|s: MatchGameScore| s.effective_score as i128)
            =~= game.scores@.take(k as int).map_values(|s: MatchGameScore| s.effective_score as i128).push(
            game.scores@[k as int].effective_score as i128));
        k = k + 1;
    }
    assert(game.scores@.take(game.scores.len() as int) =~= game.scores@);
    let order = order_by_desc(&keys);
    let mut i: usize = 0;
    while i < order.len()
        invariant
            i <= order.len(),
            order.len() == game.scores.len(),
            rows@.len() == i,
            keys@ == game.scores@.map_values(|s: MatchGameScore| s.effective_score as i128),
            is_desc_stable_order(keys@, order@, keys@.len() as int),
            forall|j: int| 0 <= j < i ==> (#[trigger] rows@[j]).score_index == Some(order@[j]),
            forall|j: int| 0 <= j < i ==> {
                let r = #[trigger] rows@[j];
                let s = game.scores@[r.score_index.unwrap() as int];
                &&& r.placement == j + 1
                &&& r.username@ == player_name(users@, s.user_id)
                &&& (match r.avatar_url { Some(a) => Some(a@), None => None::<Seq<char>> }) == (match find_user(users@, s.user_id) {
                    Some(k) => avatar_spec(users@[k]),
                    None => None,
                })
                &&& (match r.team { Some(t) => Some(t@), None => None::<Seq<char>> }) == (if s.team@.len() == 0 {
                    None
                } else {
                    Some(s.team@)
                })
                &&& r.score == shown_score(s.effective_score)
                &&& r.passed == s.passed
                &&& r.mods@ == s.mods@
            },
        decreases order.len() - i,
    {
        let idx = order[i];
        let s = &game.scores[idx];
        let (username, avatar_url) = match find_user_index(users, s.user_id) {
            Some(ui) => (users[ui].username.clone(), avatar_url_for_user(&users[ui])),
            None => (owned_unknown(), None),
        };
        let team = if s.team.as_str().is_empty() {
            None
        } else {
            Some(s.team.clone())
        };
        let score: u64 = if s.effective_score < 0 {
            0
        } else {
            s.effective_score as u64
        };
        let mods = copy_strings(&s.mods);
        rows.push(PlayerEntry {
            placement: i + 1,
            username,
            avatar_url,
            team,
            score,
            score_index: Some(idx),
            passed: s.passed,
            mods,
        });
        i = i + 1;
    }
    proof {
        let order_view = rows@.map_values(|r: PlayerEntry| r.score_index.unwrap());
        assert(order_view =~= order@);
    }
    Some(rows)
}

/// The team a score counts for: its team name without surrounding whitespace.
pub open spec fn team_key(s: MatchGameScore) -> Seq<char> {
    trim_spec(s.team@)
}

/// The sum of the shown scores of the team `name`.
pub open spec fn team_total(scores: Seq<MatchGameScore>, name: Seq<char>) -> int
    decreases scores.len(),
{
    if scores.len() == 0 {
        0
    } else {
        team_total(scores.drop_last(), name) + if team_key(scores.last()) == name {
            shown_score(scores.last().effective_score) as int
        } else {
            0
        }
    }
}

/// `name` is the team of some score.
pub open spec fn is_team_of(scores: Seq<MatchGameScore>, name: Seq<char>) -> bool {
    name.len() > 0 && exists|i: int| 0 <= i < scores.len() && team_key(#[trigger] scores[i]) == name
}

/// At least two different teams have scores.
pub open spec fn has_two_teams(scores: Seq<MatchGameScore>) -> bool {
    exists|i: int, j: int|
        0 <= i < scores.len() && 0 <= j < scores.len() && team_key(#[trigger] scores[i]).len() > 0
            && team_key(#[trigger] scores[j]).len() > 0 && team_key(scores[i]) != team_key(scores[j])
}

/// Team order on a card: higher total first, equal totals by name.
pub open spec fn ranks_before(a: TeamResult, b: TeamResult) -> bool {
    a.score > b.score || (a.score == b.score && seq_lt(a.team@, b.team@))
}

/// The team lines of a result card: none unless the game has ended, has scores
/// and at least two teams; else one line per team, with its total, by total
/// from high to low (equal totals by name), the highest totals marked as winners.
pub open spec fn team_results_ok(game: MatchGame, r: Seq<TeamResult>) -> bool {
    let scores = game.scores@;
    if game.end_time is None || scores.len() == 0 || !has_two_teams(scores) {
        r.len() == 0
    } else {
        &&& forall|n: Seq<char>| #[trigger] is_team_of(scores, n) <==> exists|i: int| 0 <= i < r.len() && (#[trigger] r[i]).team@ == n
        &&& forall|i: int| 0 <= i < r.len() ==> (#[trigger] r[i]).score == team_total(scores, r[i].team@)
        &&& forall|i: int, j: int| 0 <= i < j < r.len() ==> ranks_before(#[trigger] r[i], #[trigger] r[j])
        &&& forall|i: int| 0 <= i < r.len() ==> ((#[trigger] r[i]).is_winner <==> forall|j: int| 0 <= j < r.len() ==> #[trigger] r[j].score <= r[i].score)
    }
}

proof fn lemma_team_total_prefix(s: Seq<MatchGameScore>, k: int, n: Seq<char>)
    requires
        0 <= k <= s.len(),
    ensures
        team_total(s.take(k), n) <= team_total(s, n),
    decreases s.len(),
{
    if k < s.len() {
        assert(s.drop_last().take(k) =~= s.take(k));
        lemma_team_total_prefix(s.drop_last(), k, n);
    } else {
        assert(s.take(k) =~= s);
    }
}

proof fn lemma_team_total_absent(s: Seq<MatchGameScore>, n: Seq<char>)
    requires
        forall|i: int| 0 <= i < s.len() ==> team_key(#[trigger] s[i]) != n,
    ensures
        team_total(s, n) == 0,
    decreases s.len(),
{
    if s.len() > 0 {
        lemma_team_total_absent(s.drop_last(), n);
    }
}

proof fn lemma_ranks_order(a: TeamResult, b: TeamResult)
    requires
        a.team@ != b.team@,
    ensures
        ranks_before(a, b) || ranks_before(b, a),
        !(ranks_before(a, b) && ranks_before(b, a)),
{
    lemma_seq_lt_order(a.team@, b.team@);
}

proof fn lemma_ranks_trans(a: TeamResult, b: TeamResult, c: TeamResult)
    requires
        ranks_before(a, b),
        ranks_before(b, c),
    ensures
        ranks_before(a, c),
{
    if a.score == b.score && b.score == c.score {
        lemma_seq_lt_trans(a.team@, b.team@, c.team@);
    }
}

spec fn listed(qs: Seq<int>, c: int) -> bool {
    exists|p: int| 0 <= p < qs.len() && #[trigger] qs[p] == c
}

/// The shown value of a counted score.
fn shown(s: i64) -> (r: u64)
    ensures
        r == shown_score(s),
{
    if s < 0 {
        0
    } else {
        s as u64
    }
}

/// Whether team line `a` goes before `b`.
fn team_ranks_before(a: &TeamResult, b: &TeamResult) -> (r: bool)
    ensures
        r == ranks_before(*a, *b),
{
    if a.score != b.score {
        a.score > b.score
    } else {
        chars_lt(&chars_of(a.team.as_str()), &chars_of(b.team.as_str()))
    }
}

/// A copy of a list of strings.
fn copy_strings(v: &Vec<String>) -> (r: Vec<String>)
    ensures
        r@ == v@,
{
    let mut r: Vec<String> = Vec::new();
    let mut i: usize = 0;
    while i < v.len()
        invariant
            i <= v.len(),
            r@ == v@.take(i as int),
        decreases v.len() - i,
    {
        r.push(v[i].clone());
        assert(v@.take(i as int + 1) =~= v@.take(i as int).push(v@[i as int]));
        i = i + 1;
    }
    assert(v@.take(v.len() as int) =~= v@);
    r
}

fn owned_unknown() -> (s: String)
    ensures
        s@ == "未知玩家"@,
{
    string_of(&chars_of("未知玩家"))
}

spec fn views(v: Seq<Vec<char>>) -> Seq<Seq<char>> {
    v.map_values(|x: Vec<char>| x@)
}

proof fn lemma_is_team_of_step(s: Seq<MatchGameScore>, k: int, n: Seq<char>)
    requires
        0 <= k < s.len(),
    ensures
        is_team_of(s.take(k + 1), n) <==> (is_team_of(s.take(k), n) || (n.len() > 0 && team_key(s[k]) == n)),
{
    if is_team_of(s.take(k + 1), n) {
        let i = choose|i: int| 0 <= i < k + 1 && team_key(#[trigger] s.take(k + 1)[i]) == n;
        if i < k {
            assert(s.take(k)[i] == s[i]);
        }
    }
    if is_team_of(s.take(k), n) {
        let i = choose|i: int| 0 <= i < k && team_key(#[trigger] s.take(k)[i]) == n;
        assert(s.take(k + 1)[i] == s[i]);
    }
    if n.len() > 0 && team_key(s[k]) == n {
        assert(s.take(k + 1)[k] == s[k]);
    }
}

/// Each team with a score, once, with its total.
fn collect_team_totals(scores: &Vec<MatchGameScore>) -> (r: (Vec<Vec<char>>, Vec<u64>))
    requires
        forall|n: Seq<char>| n.len() > 0 ==> #[trigger] team_total(scores@, n) <= u64::MAX,
    ensures
        r.0@.len() == r.1@.len(),
        views(r.0@).no_duplicates(),
        forall|n: Seq<char>| #![trigger views(r.0@).contains(n)] #![trigger is_team_of(scores@, n)]
            views(r.0@).contains(n) <==> is_team_of(scores@, n),
        forall|j: int| 0 <= j < r.1@.len() ==> #[trigger] r.1@[j] == team_total(scores@, views(r.0@)[j]),
{
    let ghost s = scores@;
    let mut names: Vec<Vec<char>> = Vec::new();
    let mut totals: Vec<u64> = Vec::new();
    let mut k: usize = 0;
    proof {
        assert forall|n: Seq<char>| !is_team_of(s.take(0), n) by {}
    }
    while k < scores.len()
        invariant
            k <= scores.len(),
            s == scores@,
            forall|n: Seq<char>| n.len() > 0 ==> #[trigger] team_total(s, n) <= u64::MAX,
            names@.len() == totals@.len(),
            views(names@).no_duplicates(),
            forall|n: Seq<char>| #![trigger views(names@).contains(n)] #![trigger is_team_of(s.take(k as int), n)]
                views(names@).contains(n) <==> is_team_of(s.take(k as int), n),
            forall|j: int| 0 <= j < totals@.len() ==> #[trigger] totals@[j] == team_total(s.take(k as int), views(names@)[j]),
        decreases scores.len() - k,
    {
        let key = trim(&chars_of(scores[k].team.as_str()));
        let v = shown(scores[k].effective_score);
        let ghost old_views = views(names@);
        proof {
            assert(s.take(k as int + 1).drop_last() =~= s.take(k as int));
            assert(s.take(k as int + 1).last() == s[k as int]);
            assert forall|n: Seq<char>| #[trigger] is_team_of(s.take(k as int + 1), n) <==> (is_team_of(s.take(k as int), n) || (n.len() > 0 && team_key(s[k as int]) == n)) by {
                lemma_is_team_of_step(s, k as int, n);
            }
            assert forall|j: int| 0 <= j < old_views.len() && old_views[j] != key@ implies team_total(s.take(k as int + 1), #[trigger] old_views[j]) == team_total(s.take(k as int), old_views[j]) by {}
        }
        if key.len() > 0 {
            let mut idx: usize = 0;
            while idx < names.len() && !chars_eq(&names[idx], &key)
                invariant
                    idx <= names@.len(),
                    old_views == views(names@),
                    forall|j: int| 0 <= j < idx ==> old_views[j] != key@,
                decreases names.len() - idx,
            {
                idx = idx + 1;
            }
            if idx < names.len() {
                proof {
                    lemma_team_total_prefix(s, k as int + 1, key@);
                    assert(team_total(s, key@) <= u64::MAX);
                    assert(old_views[idx as int] == key@);
                    assert forall|j: int| 0 <= j < old_views.len() && j != idx implies old_views[j] != key@ by {
                        assert(old_views.no_duplicates());
                    }
                }
                let t = totals[idx] + v;
                totals.set(idx, t);
            } else {
                proof {
                    assert(!old_views.contains(key@));
                    assert(!is_team_of(s.take(k as int), key@));
                    assert forall|i: int| 0 <= i < k implies team_key(#[trigger] s.take(k as int)[i]) != key@ by {
                        if team_key(s.take(k as int)[i]) == key@ {
                            assert(is_team_of(s.take(k as int), key@));
                        }
                    }
                    lemma_team_total_absent(s.take(k as int), key@);
                }
                names.push(key);
                totals.push(v);
                proof {
                    assert(views(names@) =~= old_views.push(key@));
                    assert forall|n: Seq<char>| views(names@).contains(n) <==> (old_views.contains(n) || n == key@) by {
                        if n == key@ {
                            assert(views(names@)[old_views.len() as int] == n);
                        }
                        if old_views.contains(n) {
                            let j = choose|j: int| 0 <= j < old_views.len() && old_views[j] == n;
                            assert(views(names@)[j] == n);
                        }
                        if views(names@).contains(n) {
                            let j = choose|j: int| 0 <= j < views(names@).len() && views(names@)[j] == n;
                            if j < old_views.len() {
                                assert(old_views[j] == n);
                            }
                        }
                    }
                }
            }
        } else {
            proof {
                assert forall|j: int| 0 <= j < old_views.len() implies (#[trigger] old_views[j]) != key@ by {
                    assert(old_views.contains(old_views[j]));
                }
            }
        }
        proof {
            assert forall|n: Seq<char>| #![trigger views(names@).contains(n)] #![trigger is_team_of(s.take(k as int + 1), n)]
                views(names@).contains(n) <==> is_team_of(s.take(k as int + 1), n) by {
                lemma_is_team_of_step(s, k as int, n);
            }
        }
        k = k + 1;
    }
    proof {
        assert(s.take(s.len() as int) =~= s);
    }
    (names, totals)
}

/// The highest of at least one total.
fn max_total(totals: &Vec<u64>) -> (m: u64)
    requires
        totals@.len() > 0,
    ensures
        forall|j: int| 0 <= j < totals@.len() ==> #[trigger] totals@[j] <= m,
        totals@.contains(m),
{
    let mut m: u64 = totals[0];
    let mut i: usize = 1;
    while i < totals.len()
        invariant
            1 <= i <= totals@.len(),
            forall|j: int| 0 <= j < i ==> #[trigger] totals@[j] <= m,
            totals@.contains(m),
        decreases totals.len() - i,
    {
        if totals[i] > m {
            m = totals[i];
        }
        i = i + 1;
    }
    m
}

/// The team lines for the given distinct teams and totals, in card order.
fn rank_teams(names: &Vec<Vec<char>>, totals: &Vec<u64>, max_score: u64) -> (out: Vec<TeamResult>)
    requires
        names@.len() == totals@.len(),
        views(names@).no_duplicates(),
    ensures
        out@.len() == names@.len(),
        forall|a: int, b: int| 0 <= a < b < out@.len() ==> ranks_before(#[trigger] out@[a], #[trigger] out@[b]),
        forall|p: int| 0 <= p < out@.len() ==> #[trigger] has_row(out@[p], views(names@), totals@, max_score),
        forall|c: int| 0 <= c < names@.len() ==> #[trigger] listed_team(out@, views(names@)[c]),
{
    let ghost nv = views(names@);
    let mut out: Vec<TeamResult> = Vec::new();
    let mut q: usize = 0;
    let ghost mut qs: Seq<int> = Seq::empty();
    while q < names.len()
        invariant
            q <= names@.len(),
            nv == views(names@),
            names@.len() == totals@.len(),
            nv.no_duplicates(),
            out@.len() == q,
            qs.len() == q,
            forall|p: int| 0 <= p < q ==> 0 <= #[trigger] qs[p] < q,
            forall|p: int| 0 <= p < q ==> (#[trigger] out@[p]).team@ == nv[qs[p]] && out@[p].score == totals@[qs[p]]
                && out@[p].is_winner == (totals@[qs[p]] == max_score),
            forall|c: int| 0 <= c < q ==> #[trigger] listed_team(out@, nv[c]),
            forall|a: int, b: int| 0 <= a < b < q ==> ranks_before(#[trigger] out@[a], #[trigger] out@[b]),
        decreases names.len() - q,
    {
        let item = TeamResult { team: string_of(&names[q]), score: totals[q], is_winner: totals[q] == max_score };
        let mut pos: usize = 0;
        while pos < out.len() && !team_ranks_before(&item, &out[pos])
            invariant
                pos <= out@.len(),
                forall|p: int| 0 <= p < pos ==> !ranks_before(item, #[trigger] out@[p]),
            decreases out.len() - pos,
        {
            pos = pos + 1;
        }
        let ghost old_out = out@;
        let ghost old_qs = qs;
        proof {
            assert(item.team@ == nv[q as int]);
            assert forall|p: int| 0 <= p < old_out.len() implies item.team@ != (#[trigger] old_out[p]).team@ by {
                assert(old_qs[p] != q);
            }
            assert forall|p: int| 0 <= p < pos implies ranks_before(#[trigger] old_out[p], item) by {
                lemma_ranks_order(old_out[p], item);
            }
            assert forall|p: int| pos <= p < old_out.len() implies ranks_before(item, #[trigger] old_out[p]) by {
                if p > pos {
                    lemma_ranks_trans(item, old_out[pos as int], old_out[p]);
                }
            }
        }
        out.insert(pos, item);
        proof {
            qs = old_qs.insert(pos as int, q as int);
            assert(out@ =~= old_out.insert(pos as int, item));
            assert forall|a: int, b: int| 0 <= a < b < q + 1 implies ranks_before(#[trigger] out@[a], #[trigger] out@[b]) by {
                if b < pos {
                    assert(out@[a] == old_out[a] && out@[b] == old_out[b]);
                } else if b == pos {
                    assert(out@[a] == old_out[a]);
                } else if a < pos {
                    assert(out@[a] == old_out[a] && out@[b] == old_out[b - 1]);
                } else if a == pos {
                    assert(out@[b] == old_out[b - 1]);
                } else {
                    assert(out@[a] == old_out[a - 1] && out@[b] == old_out[b - 1]);
                }
            }
            assert forall|c: int| 0 <= c < q + 1 implies #[trigger] listed_team(out@, nv[c]) by {
                if c == q {
                    assert(out@[pos as int].team@ == nv[c]);
                } else {
                    assert(listed_team(old_out, nv[c]));
                    let p0 = choose|p: int| 0 <= p < old_out.len() && (#[trigger] old_out[p]).team@ == nv[c];
                    if p0 < pos {
                        assert(out@[p0].team@ == nv[c]);
                    } else {
                        assert(out@[p0 + 1].team@ == nv[c]);
                    }
                }
            }
        }
        q = q + 1;
    }
    proof {
        assert forall|p: int| 0 <= p < out@.len() implies #[trigger] has_row(out@[p], views(names@), totals@, max_score) by {
            assert(row_from(out@[p], views(names@), totals@, max_score, qs[p]));
        }
    }
    out
}

spec fn row_from(t: TeamResult, nv: Seq<Seq<char>>, totals: Seq<u64>, max_score: u64, c: int) -> bool {
    &&& 0 <= c < nv.len()
    &&& c < totals.len()
    &&& t.team@ == nv[c]
    &&& t.score == totals[c]
    &&& t.is_winner == (totals[c] == max_score)
}

spec fn has_row(t: TeamResult, nv: Seq<Seq<char>>, totals: Seq<u64>, max_score: u64) -> bool {
    exists|c: int| #[trigger] row_from(t, nv, totals, max_score, c)
}

spec fn listed_team(out: Seq<TeamResult>, n: Seq<char>) -> bool {
    exists|p: int| 0 <= p < out.len() && (#[trigger] out[p]).team@ == n
}

/// The team lines of a result card (see [`team_results_ok`]).
pub fn build_team_results(game: &MatchGame) -> (r: Vec<TeamResult>)
    requires
        game.end_time is Some && game.scores@.len() > 0 ==> forall|n: Seq<char>| n.len() > 0 ==> #[trigger] team_total(
            game.scores@,
            n,
        ) <= u64::MAX,
    ensures
        team_results_ok(*game, r@),
{
    if game.end_time.is_none() || game.scores.len() == 0 {
        return Vec::new();
    }
    let ghost scores = game.scores@;
    let (names, totals) = collect_team_totals(&game.scores);
    let ghost nv = views(names@);
    if names.len() < 2 {
        proof {
            if has_two_teams(scores) {
                let (i, j) = choose|i: int, j: int|
                    0 <= i < scores.len() && 0 <= j < scores.len() && team_key(#[trigger] scores[i]).len() > 0
                        && team_key(#[trigger] scores[j]).len() > 0 && team_key(scores[i]) != team_key(scores[j]);
                assert(is_team_of(scores, team_key(scores[i])));
                assert(is_team_of(scores, team_key(scores[j])));
                assert(nv.contains(team_key(scores[i])));
                assert(nv.contains(team_key(scores[j])));
            }
        }
        return Vec::new();
    }
    proof {
        assert(nv.contains(nv[0]));
        assert(nv.contains(nv[1]));
        assert(is_team_of(scores, nv[0]));
        assert(is_team_of(scores, nv[1]));
        let i0 = choose|i: int| 0 <= i < scores.len() && team_key(#[trigger] scores[i]) == nv[0];
        let i1 = choose|i: int| 0 <= i < scores.len() && team_key(#[trigger] scores[i]) == nv[1];
        assert(has_two_teams(scores)) by {
            assert(team_key(scores[i0]).len() > 0);
            assert(team_key(scores[i1]).len() > 0);
        }
    }
    let max_score = max_total(&totals);
    let out = rank_teams(&names, &totals, max_score);
    proof {
        assert forall|n: Seq<char>| #[trigger] is_team_of(scores, n) implies exists|i: int| 0 <= i < out@.len() && (#[trigger] out@[i]).team@ == n by {
            assert(nv.contains(n));
            let c = choose|c: int| 0 <= c < nv.len() && nv[c] == n;
            assert(listed_team(out@, nv[c]));
        }
        assert forall|n: Seq<char>| (exists|i: int| 0 <= i < out@.len() && (#[trigger] out@[i]).team@ == n) implies #[trigger] is_team_of(scores, n) by {
            let p = choose|i: int| 0 <= i < out@.len() && (#[trigger] out@[i]).team@ == n;
            assert(has_row(out@[p], nv, totals@, max_score));
            let c = choose|c: int| #[trigger] row_from(out@[p], nv, totals@, max_score, c);
            assert(nv.contains(nv[c]));
        }
        assert forall|p: int| 0 <= p < out@.len() implies (#[trigger] out@[p]).score == team_total(scores, out@[p].team@) by {
            assert(has_row(out@[p], nv, totals@, max_score));
            let c = choose|c: int| #[trigger] row_from(out@[p], nv, totals@, max_score, c);
            assert(totals@[c] == team_total(scores, nv[c]));
        }
        let cm = choose|c: int| 0 <= c < totals@.len() && totals@[c] == max_score;
        assert(listed_team(out@, nv[cm]));
        let pm = choose|p: int| 0 <= p < out@.len() && (#[trigger] out@[p]).team@ == nv[cm];
        assert(has_row(out@[pm], nv, totals@, max_score));
        let cpm = choose|c: int| #[trigger] row_from(out@[pm], nv, totals@, max_score, c);
        assert(nv[cpm] == nv[cm]);
        assert(cpm == cm) by {
            if cpm != cm {
                assert(nv.no_duplicates());
            }
        }
        assert(out@[pm].score == max_score);
        assert forall|p: int| 0 <= p < out@.len() implies ((#[trigger] out@[p]).is_winner <==> forall|j: int| 0 <= j < out@.len() ==> #[trigger] out@[j].score <= out@[p].score) by {
            assert(has_row(out@[p], nv, totals@, max_score));
            let c = choose|c: int| #[trigger] row_from(out@[p], nv, totals@, max_score, c);
            if out@[p].is_winner {
                assert forall|j: int| 0 <= j < out@.len() implies #[trigger] out@[j].score <= out@[p].score by {
                    assert(has_row(out@[j], nv, totals@, max_score));
                    let cj = choose|c: int| #[trigger] row_from(out@[j], nv, totals@, max_score, c);
                    assert(totals@[cj] <= max_score);
                }
            }
            assert(out@[pm].score <= out@[p].score ==> out@[p].is_winner);
        }
    }
    out
}

/// What a result card shows, but for its images, the star rating and the
/// numbers with decimals, which the caller adds from the game it holds.
#[derive(Debug, Clone)]
pub struct CardParams {
    pub match_id: u64,
    pub match_name: String,
    pub event_label: String,
    pub played_at: String,
    pub beatmap_id: u64,
    pub beatmap_artist: String,
    pub beatmap_title: String,
    pub beatmap_version: String,
    pub beatmap_mapper: String,
    pub beatmap_mode: String,
    /// The game is still being played (it has no end time).
    pub is_started: bool,
    pub selected_mods: Vec<String>,
    pub team_type: Option<String>,
    pub scoring_type: Option<String>,
    pub team_results: Vec<TeamResult>,
    pub players: Vec<PlayerEntry>,
}

/// A string's view, kept where it is present.
pub open spec fn opt_view(o: Option<String>) -> Option<Seq<char>> {
    match o {
        Some(x) => Some(x@),
        None => None,
    }
}

/// A game's team or scoring type as a card shows it: the text as given,
/// `None` when it is blank.
pub open spec fn shown_kind(s: Seq<char>) -> Option<Seq<char>> {
    if trim_spec(s).len() > 0 {
        Some(s)
    } else {
        None
    }
}

/// A result card made from the match, the label and time of the event, the
/// game and the match's users: the beatmap's details (empty when unknown; the
/// mode `osu` when none is given), whether the game is still being played,
/// the selected mods, the team and scoring types, the team lines and the
/// player rows.
pub open spec fn card_ok(
    p: CardParams,
    match_id: u64,
    match_name: Seq<char>,
    event_label: Seq<char>,
    played_at: Seq<char>,
    game: MatchGame,
    users: Seq<MatchUser>,
) -> bool {
    &&& p.match_id == match_id
    &&& p.match_name@ == match_name
    &&& p.event_label@ == event_label
    &&& p.played_at@ == played_at
    &&& game.beatmap_id == Some(p.beatmap_id)
    &&& p.beatmap_artist@ == (match game.beatmapset { Some(b) => b.artist@, None => Seq::empty() })
    &&& p.beatmap_title@ == (match game.beatmapset { Some(b) => b.title@, None => Seq::empty() })
    &&& p.beatmap_mapper@ == (match game.beatmapset { Some(b) => b.creator@, None => Seq::empty() })
    &&& p.beatmap_version@ == (match game.beatmap { Some(b) => b.version@, None => Seq::empty() })
    &&& p.beatmap_mode@ == (match game.beatmap {
        Some(b) => if b.mode@.len() > 0 { b.mode@ } else { "osu"@ },
        None => "osu"@,
    })
    &&& p.is_started == game.end_time is None
    &&& p.selected_mods@ == game.mods@
    &&& opt_view(p.team_type) == shown_kind(game.team_type@)
    &&& opt_view(p.scoring_type) == shown_kind(game.scoring_type@)
    &&& players_ok(game, users, p.players@)
    &&& team_results_ok(game, p.team_results@)
}

fn kind_of(s: &String) -> (r: Option<String>)
    ensures
        opt_view(r) == shown_kind(s@),
{
    if trim(&chars_of(s.as_str())).len() > 0 {
        Some(s.clone())
    } else {
        None
    }
}

fn empty_string() -> (s: String)
    ensures
        s@ == Seq::<char>::empty(),
{
    string_of(&Vec::new())
}

/// The result card of a game (see [`card_ok`]); `None` exactly when the card
/// cannot be drawn (see [`players_drawable`]).
pub fn build_match_result_params(
    match_id: u64,
    match_name: &str,
    event_label: &str,
    played_at: &str,
    game: &MatchGame,
    users: &[MatchUser],
) -> (r: Option<CardParams>)
    requires
        game.beatmap_id is Some && game.end_time is Some && game.scores@.len() > 0 ==> forall|n: Seq<char>|
            n.len() > 0 ==> #[trigger] team_total(game.scores@, n) <= u64::MAX,
    ensures
        r is Some == players_drawable(*game),
        r matches Some(p) ==> card_ok(p, match_id, match_name@, event_label@, played_at@, *game, users@),
{
    let beatmap_id = match game.beatmap_id {
        Some(id) => id,
        None => return None,
    };
    let players = match build_players(game, users) {
        Some(rows) => rows,
        None => return None,
    };
    let team_results = build_team_results(game);
    let (artist, title, mapper) = match &game.beatmapset {
        Some(b) => (b.artist.clone(), b.title.clone(), b.creator.clone()),
        None => (empty_string(), empty_string(), empty_string()),
    };
    let (version, mode) = match &game.beatmap {
        Some(b) => (b.version.clone(), if b.mode.as_str().is_empty() {
            string_of(&chars_of("osu"))
        } else {
            b.mode.clone()
        }),
        None => (empty_string(), string_of(&chars_of("osu"))),
    };
    Some(CardParams {
        match_id,
        match_name: string_of(&chars_of(match_name)),
        event_label: string_of(&chars_of(event_label)),
        played_at: string_of(&chars_of(played_at)),
        beatmap_id,
        beatmap_artist: artist,
        beatmap_title: title,
        beatmap_version: version,
        beatmap_mapper: mapper,
        beatmap_mode: mode,
        is_started: game.end_time.is_none(),
        selected_mods: copy_strings(&game.mods),
        team_type: kind_of(&game.team_type),
        scoring_type: kind_of(&game.scoring_type),
        team_results,
        players,
    })
}

/// The text details of a beatmap fetched on their own, for a card that
/// lacks them (the numbers with decimals and the cover stay with the caller).
#[derive(Debug, Clone)]
pub struct BeatmapMetadata {
    pub artist: String,
    pub title: String,
    pub version: String,
    pub creator: String,
    pub mode: String,
}

/// A card detail kept when it has text, else the fetched one.
pub open spec fn fill_blank(current: Seq<char>, fetched: Seq<char>) -> Seq<char> {
    if trim_spec(current).len() == 0 {
        fetched
    } else {
        current
    }
}

fn fill_blank_exec(current: &mut String, fetched: String)
    ensures
        final(current)@ == fill_blank(old(current)@, fetched@),
{
    if trim(&chars_of(current.as_str())).len() == 0 {
        *current = fetched;
    }
}

impl CardParams {
    /// Fills the beatmap details the card lacks from fetched metadata: the
    /// artist, title, version and mapper where blank; the mode where blank or
    /// the `osu` stand-in. Everything else stays.
    pub fn apply_beatmap_metadata(&mut self, metadata: BeatmapMetadata)
        ensures
            final(self).beatmap_artist@ == fill_blank(old(self).beatmap_artist@, metadata.artist@),
            final(self).beatmap_title@ == fill_blank(old(self).beatmap_title@, metadata.title@),
            final(self).beatmap_version@ == fill_blank(old(self).beatmap_version@, metadata.version@),
            final(self).beatmap_mapper@ == fill_blank(old(self).beatmap_mapper@, metadata.creator@),
            final(self).beatmap_mode@ == (if trim_spec(old(self).beatmap_mode@).len() == 0 || old(self).beatmap_mode@
                == "osu"@ {
                metadata.mode@
            } else {
                old(self).beatmap_mode@
            }),
            final(self).match_id == old(self).match_id,
            final(self).match_name == old(self).match_name,
            final(self).event_label == old(self).event_label,
            final(self).played_at == old(self).played_at,
            final(self).beatmap_id == old(self).beatmap_id,
            final(self).is_started == old(self).is_started,
            final(self).selected_mods == old(self).selected_mods,
            final(self).team_type == old(self).team_type,
            final(self).scoring_type == old(self).scoring_type,
            final(self).team_results == old(self).team_results,
            final(self).players == old(self).players,
    {
        fill_blank_exec(&mut self.beatmap_artist, metadata.artist);
        fill_blank_exec(&mut self.beatmap_title, metadata.title);
        fill_blank_exec(&mut self.beatmap_version, metadata.version);
        fill_blank_exec(&mut self.beatmap_mapper, metadata.creator);
        let blank = trim(&chars_of(self.beatmap_mode.as_str())).len() == 0;
        if blank || eq_str(self.beatmap_mode.as_str(), "osu") {
            self.beatmap_mode = metadata.mode;
        }
    }
}

} // verus!
