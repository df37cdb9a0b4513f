//! The bot's configuration: its sections and their defaults, the rules a
//! configuration must meet, which groups may use the bot and which command
//! groups each of them has switched on, and `Debug`-style texts that never
//! show a secret.

use vstd::prelude::*;
use crate::text::{
    chars_eq, chars_of, dec_digits, i64_chars, int_to_dec, owned, push_all, push_str, string_of,
    u64_digits,
};

verus! {

/// The command groups a group can switch on and off.
#[derive(Debug, Clone, Copy, PartialEq, Eq, Structural)]
pub enum CommandGroup {
    Query,
    Score,
    BeatmapPreview,
    Profile,
    Highlight,
    Bind,
    Mode,
    Help,
}

/// osu! API credentials.
#[derive(Clone)]
pub struct OsuConfig {
    pub client_secret: String,
    pub client_id: String,
}

/// OneBot connection and timeouts (seconds).
#[derive(Debug, Clone)]
pub struct BotConfig {
    pub onebot_url: String,
    pub command_timeout_secs: u64,
    pub render_timeout_secs: u64,
    pub onebot_api_timeout_secs: u64,
    pub ur_timeout_secs: u64,
}

/// Where the database lives.
#[derive(Debug, Clone)]
pub struct DatabaseConfig {
    pub path: String,
}

/// How often users are refreshed, by activity, and how long data is kept.
#[derive(Debug, Clone, Copy, PartialEq, Eq, Structural)]
pub struct SchedulerConfig {
    pub interval_minutes: u64,
    pub semi_active_interval_hours: i64,
    pub normal_interval_hours: i64,
    pub inactive_interval_hours: i64,
    pub no_recent_interval_hours: i64,
    pub user_not_exists_interval_hours: i64,
    pub group_trigger_cooldown_hours: i64,
    pub retention_days: u64,
    pub cache_retention_days: u64,
}

/// The osu! IRC connection.
#[derive(Clone)]
pub struct IrcConfig {
    pub enabled: bool,
    pub server: String,
    pub port: u16,
    pub nickname: String,
    pub password: String,
}

/// Whether `group_ids` lists the groups that are refused or the only ones allowed.
#[derive(Debug, Clone, Copy, PartialEq, Eq, Structural)]
pub enum FilterMode {
    Blacklist,
    Whitelist,
}

/// Which groups the bot answers.
#[derive(Debug, Clone)]
pub struct GroupFilterConfig {
    pub mode: FilterMode,
    pub group_ids: Vec<i64>,
}

/// One group's command switches; an unset switch is on.
#[derive(Debug, Clone, Copy, PartialEq, Eq, Structural)]
pub struct GroupConfig {
    pub query: Option<bool>,
    pub score: Option<bool>,
    pub beatmap_preview: Option<bool>,
    pub profile: Option<bool>,
    pub highlight: Option<bool>,
    pub bind: Option<bool>,
    pub mode: Option<bool>,
    pub help: Option<bool>,
}

/// The switches of all groups, and of each group that overrides them, keyed
/// by its group id as written in the configuration.
#[derive(Debug, Clone)]
pub struct GroupsConfig {
    pub default: GroupConfig,
    pub overrides: Vec<(String, GroupConfig)>,
}

/// One upstream binding provider.
#[derive(Clone)]
pub struct ProviderConfig {
    pub provider_type: String,
    pub rate_per_minute: u32,
    pub burst: u32,
    pub url: Option<String>,
    pub access_token: Option<String>,
    pub self_id: Option<i64>,
    pub timeout_secs: u64,
}

/// The upstream binding providers.
#[derive(Clone)]
pub struct UpstreamConfig {
    pub enabled: bool,
    pub providers: Vec<ProviderConfig>,
}

/// The whole configuration.
#[derive(Clone)]
pub struct Config {
    pub osu: OsuConfig,
    pub bot: BotConfig,
    pub database: DatabaseConfig,
    pub scheduler: SchedulerConfig,
    pub irc: IrcConfig,
    pub group_filter: GroupFilterConfig,
    pub groups: GroupsConfig,
    pub upstream: UpstreamConfig,
}

/// A configuration that was read but breaks one of its rules.
#[derive(Debug, Clone)]
pub enum ConfigError {
    Validation(String),
}

pub fn default_command_timeout_secs() -> (r: u64)
    ensures
        r == 120,
{
    120
}

pub fn default_render_timeout_secs() -> (r: u64)
    ensures
        r == 60,
{
    60
}

pub fn default_onebot_api_timeout_secs() -> (r: u64)
    ensures
        r == 5,
{
    5
}

pub fn default_ur_timeout_secs() -> (r: u64)
    ensures
        r == 10,
{
    10
}

pub fn default_interval_minutes() -> (r: u64)
    ensures
        r == 1,
{
    1
}

pub fn default_semi_active_interval_hours() -> (r: i64)
    ensures
        r == 4,
{
    4
}

pub fn default_normal_interval_hours() -> (r: i64)
    ensures
        r == 8,
{
    8
}

pub fn default_inactive_interval_hours() -> (r: i64)
    ensures
        r == 48,
{
    48
}

pub fn default_no_recent_interval_hours() -> (r: i64)
    ensures
        r == 6,
{
    6
}

pub fn default_user_not_exists_interval_hours() -> (r: i64)
    ensures
        r == 24,
{
    24
}

pub fn default_group_trigger_cooldown_hours() -> (r: i64)
    ensures
        r == 1,
{
    1
}

pub fn default_retention_days() -> (r: u64)
    ensures
        r == 180,
{
    180
}

pub fn default_cache_retention_days() -> (r: u64)
    ensures
        r == 7,
{
    7
}

pub fn default_irc_server() -> (r: String)
    ensures
        r@ == "irc.ppy.sh"@,
{
    owned("irc.ppy.sh")
}

pub fn default_irc_port() -> (r: u16)
    ensures
        r == 6667,
{
    6667
}

pub fn default_filter_mode() -> (r: FilterMode)
    ensures
        r == FilterMode::Blacklist,
{
    FilterMode::Blacklist
}

pub fn default_upstream_url() -> (r: String)
    ensures
        r@ == "wss://public-service.b11p.com/"@,
{
    owned("wss://public-service.b11p.com/")
}

pub fn default_timeout_secs() -> (r: u64)
    ensures
        r == 10,
{
    10
}

pub fn default_rate_per_minute() -> (r: u32)
    ensures
        r == 10,
{
    10
}

pub fn default_burst() -> (r: u32)
    ensures
        r == 20,
{
    20
}

impl Default for BotConfig {
    /// Every field empty or zero.
    fn default() -> (r: Self)
        ensures
            r.onebot_url@.len() == 0,
            r.command_timeout_secs == 0,
            r.render_timeout_secs == 0,
            r.onebot_api_timeout_secs == 0,
            r.ur_timeout_secs == 0,
    {
        BotConfig {
            onebot_url: String::new(),
            command_timeout_secs: 0,
            render_timeout_secs: 0,
            onebot_api_timeout_secs: 0,
            ur_timeout_secs: 0,
        }
    }
}

/// The scheduler's defaults.
pub open spec fn scheduler_defaults() -> SchedulerConfig {
    SchedulerConfig {
        interval_minutes: 1,
        semi_active_interval_hours: 4,
        normal_interval_hours: 8,
        inactive_interval_hours: 48,
        no_recent_interval_hours: 6,
        user_not_exists_interval_hours: 24,
        group_trigger_cooldown_hours: 1,
        retention_days: 180,
        cache_retention_days: 7,
    }
}

impl Default for SchedulerConfig {
    fn default() -> (r: Self)
        ensures
            r == scheduler_defaults(),
    {
        SchedulerConfig {
            interval_minutes: default_interval_minutes(),
            semi_active_interval_hours: default_semi_active_interval_hours(),
            normal_interval_hours: default_normal_interval_hours(),
            inactive_interval_hours: default_inactive_interval_hours(),
            no_recent_interval_hours: default_no_recent_interval_hours(),
            user_not_exists_interval_hours: default_user_not_exists_interval_hours(),
            group_trigger_cooldown_hours: default_group_trigger_cooldown_hours(),
            retention_days: default_retention_days(),
            cache_retention_days: default_cache_retention_days(),
        }
    }
}

impl Default for IrcConfig {
    /// Disabled, `irc.ppy.sh:6667`, no nickname or password.
    fn default() -> (r: Self)
        ensures
            !r.enabled,
            r.server@ == "irc.ppy.sh"@,
            r.port == 6667,
            r.nickname@.len() == 0,
            r.password@.len() == 0,
    {
        IrcConfig {
            enabled: false,
            server: default_irc_server(),
            port: default_irc_port(),
            nickname: String::new(),
            password: String::new(),
        }
    }
}

impl Default for GroupFilterConfig {
    /// A blacklist of no groups: every group is allowed.
    fn default() -> (r: Self)
        ensures
            r.mode == FilterMode::Blacklist,
            r.group_ids@.len() == 0,
    {
        GroupFilterConfig { mode: default_filter_mode(), group_ids: Vec::new() }
    }
}

/// A group configuration with no switch set.
pub open spec fn unset_group_config() -> GroupConfig {
    GroupConfig {
        query: None,
        score: None,
        beatmap_preview: None,
        profile: None,
        highlight: None,
        bind: None,
        mode: None,
        help: None,
    }
}

impl Default for GroupConfig {
    fn default() -> (r: Self)
        ensures
            r == unset_group_config(),
    {
        GroupConfig {
            query: None,
            score: None,
            beatmap_preview: None,
            profile: None,
            highlight: None,
            bind: None,
            mode: None,
            help: None,
        }
    }
}

impl Default for GroupsConfig {
    fn default() -> (r: Self)
        ensures
            r.default == unset_group_config(),
            r.overrides@.len() == 0,
            r.overrides_unique(),
    {
        GroupsConfig { default: GroupConfig::default(), overrides: Vec::new() }
    }
}

/// A value given in the environment, else `fallback`.
pub open spec fn given_or(o: Option<String>, fallback: Seq<char>) -> Seq<char> {
    match o {
        Some(x) => x@,
        None => fallback,
    }
}

fn take_or(o: Option<String>, fallback: &str) -> (r: String)
    ensures
        r@ == given_or(o, fallback@),
{
    match o {
        Some(x) => x,
        None => owned(fallback),
    }
}

impl Config {
    /// The configuration built from the environment alone: the osu! secret
    /// from `OSU_CLIENT_SECRET`, else `OSU_API_KEY`, else empty; the client id
    /// from `OSU_CLIENT_ID`, else empty; the OneBot address from `ONEBOT_URL`,
    /// else `ws://127.0.0.1:8080`; the database from `DATABASE_PATH`, else
    /// `osubot.db`; every other setting at its default. The caller passes
    /// each variable's value, `None` when it is not set.
    pub fn from_environment(
        osu_client_secret: Option<String>,
        osu_api_key: Option<String>,
        osu_client_id: Option<String>,
        onebot_url: Option<String>,
        database_path: Option<String>,
    ) -> (r: Config)
        ensures
            r.osu.client_secret@ == (match osu_client_secret {
                Some(x) => x@,
                None => given_or(osu_api_key, Seq::empty()),
            }),
            r.osu.client_id@ == given_or(osu_client_id, Seq::empty()),
            r.bot.onebot_url@ == given_or(onebot_url, "ws://127.0.0.1:8080"@),
            r.bot.command_timeout_secs == 120,
            r.bot.render_timeout_secs == 60,
            r.bot.onebot_api_timeout_secs == 5,
            r.bot.ur_timeout_secs == 10,
            r.database.path@ == given_or(database_path, "osubot.db"@),
            r.scheduler == scheduler_defaults(),
            !r.irc.enabled,
            r.irc.server@ == "irc.ppy.sh"@,
            r.irc.port == 6667,
            r.irc.nickname@.len() == 0,
            r.irc.password@.len() == 0,
            r.group_filter.mode == FilterMode::Blacklist,
            r.group_filter.group_ids@.len() == 0,
            r.groups.default == unset_group_config(),
            r.groups.overrides@.len() == 0,
            !r.upstream.enabled,
            r.upstream.providers@.len() == 0,
    {
        proof {
            reveal_strlit("");
        }
        let secret = match osu_client_secret {
            Some(x) => x,
            None => take_or(osu_api_key, ""),
        };
        Config {
            osu: OsuConfig { client_secret: secret, client_id: take_or(osu_client_id, "") },
            bot: BotConfig {
                onebot_url: take_or(onebot_url, "ws://127.0.0.1:8080"),
                command_timeout_secs: default_command_timeout_secs(),
                render_timeout_secs: default_render_timeout_secs(),
                onebot_api_timeout_secs: default_onebot_api_timeout_secs(),
                ur_timeout_secs: default_ur_timeout_secs(),
            },
            database: DatabaseConfig { path: take_or(database_path, "osubot.db") },
            scheduler: SchedulerConfig::default(),
            irc: IrcConfig::default(),
            group_filter: GroupFilterConfig::default(),
            groups: GroupsConfig::default(),
            upstream: UpstreamConfig::default(),
        }
    }
}

impl Default for UpstreamConfig {
    fn default() -> (r: Self)
        ensures
            !r.enabled,
            r.providers@.len() == 0,
    {
        UpstreamConfig { enabled: false, providers: Vec::new() }
    }
}

impl GroupFilterConfig {
    /// A whitelist allows exactly the listed groups; a blacklist allows all others.
    pub open spec fn allows(&self, group_id: i64) -> bool {
        match self.mode {
            FilterMode::Whitelist => self.group_ids@.contains(group_id),
            FilterMode::Blacklist => !self.group_ids@.contains(group_id),
        }
    }

    /// A whitelist answers exactly in the listed groups and a blacklist
    /// exactly outside them: the same list under the two modes allows
    /// complementary groups.
    pub proof fn law_white_and_black_lists(ids: Vec<i64>, group_id: i64)
        ensures
            (GroupFilterConfig { mode: FilterMode::Whitelist, group_ids: ids }).allows(group_id) == ids@.contains(group_id),
            (GroupFilterConfig { mode: FilterMode::Blacklist, group_ids: ids }).allows(group_id) == !ids@.contains(group_id),
    {
    }

    /// Whether the bot answers in this group.
    pub fn is_group_allowed(&self, group_id: i64) -> (r: bool)
        ensures
            r == self.allows(group_id),
    {
        let mut listed = false;
        let mut i: usize = 0;
        while i < self.group_ids.len()
            invariant
                i <= self.group_ids@.len(),
                listed == (exists|j: int| 0 <= j < i && self.group_ids@[j] == group_id),
            decreases self.group_ids.len() - i,
        {
            if self.group_ids[i] == group_id {
                listed = true;
            }
            i = i + 1;
        }
        match self.mode {
            FilterMode::Whitelist => listed,
            FilterMode::Blacklist => !listed,
        }
    }
}

/// A switch's value, on when unset.
pub open spec fn switch_on(s: Option<bool>) -> bool {
    match s {
        Some(b) => b,
        None => true,
    }
}

impl GroupConfig {
    /// The switch that governs a command group.
    pub open spec fn switch_of(&self, group: CommandGroup) -> Option<bool> {
        match group {
            CommandGroup::Query => self.query,
            CommandGroup::Score => self.score,
            CommandGroup::BeatmapPreview => self.beatmap_preview,
            CommandGroup::Profile => self.profile,
            CommandGroup::Highlight => self.highlight,
            CommandGroup::Bind => self.bind,
            CommandGroup::Mode => self.mode,
            CommandGroup::Help => self.help,
        }
    }

    /// Whether a command group is on: its switch, or on when unset.
    pub fn is_enabled(&self, group_name: CommandGroup) -> (r: bool)
        ensures
            r == switch_on(self.switch_of(group_name)),
    {
        let s = match group_name {
            CommandGroup::Query => self.query,
            CommandGroup::Score => self.score,
            CommandGroup::BeatmapPreview => self.beatmap_preview,
            CommandGroup::Profile => self.profile,
            CommandGroup::Highlight => self.highlight,
            CommandGroup::Bind => self.bind,
            CommandGroup::Mode => self.mode,
            CommandGroup::Help => self.help,
        };
        match s {
            Some(b) => b,
            None => true,
        }
    }
}

/// Each command group is governed by its own switch alone, on when unset:
/// the answer for a group is that group's field, whatever the others hold.
pub proof fn law_each_group_its_own_switch(g: GroupConfig, h: GroupConfig)
    ensures
        switch_on(g.switch_of(CommandGroup::Query)) == (match g.query { Some(b) => b, None => true }),
        switch_on(g.switch_of(CommandGroup::Score)) == (match g.score { Some(b) => b, None => true }),
        switch_on(g.switch_of(CommandGroup::BeatmapPreview)) == (match g.beatmap_preview { Some(b) => b, None => true }),
        switch_on(g.switch_of(CommandGroup::Profile)) == (match g.profile { Some(b) => b, None => true }),
        switch_on(g.switch_of(CommandGroup::Highlight)) == (match g.highlight { Some(b) => b, None => true }),
        switch_on(g.switch_of(CommandGroup::Bind)) == (match g.bind { Some(b) => b, None => true }),
        switch_on(g.switch_of(CommandGroup::Mode)) == (match g.mode { Some(b) => b, None => true }),
        switch_on(g.switch_of(CommandGroup::Help)) == (match g.help { Some(b) => b, None => true }),
        g.query == h.query ==> switch_on(g.switch_of(CommandGroup::Query)) == switch_on(h.switch_of(CommandGroup::Query)),
        g.score == h.score ==> switch_on(g.switch_of(CommandGroup::Score)) == switch_on(h.switch_of(CommandGroup::Score)),
        g.beatmap_preview == h.beatmap_preview ==> switch_on(g.switch_of(CommandGroup::BeatmapPreview)) == switch_on(
            h.switch_of(CommandGroup::BeatmapPreview),
        ),
        g.profile == h.profile ==> switch_on(g.switch_of(CommandGroup::Profile)) == switch_on(h.switch_of(CommandGroup::Profile)),
        g.highlight == h.highlight ==> switch_on(g.switch_of(CommandGroup::Highlight)) == switch_on(
            h.switch_of(CommandGroup::Highlight),
        ),
        g.bind == h.bind ==> switch_on(g.switch_of(CommandGroup::Bind)) == switch_on(h.switch_of(CommandGroup::Bind)),
        g.mode == h.mode ==> switch_on(g.switch_of(CommandGroup::Mode)) == switch_on(h.switch_of(CommandGroup::Mode)),
        g.help == h.help ==> switch_on(g.switch_of(CommandGroup::Help)) == switch_on(h.switch_of(CommandGroup::Help)),
{
}

/// `first.or(second)`.
pub open spec fn or_else(first: Option<bool>, second: Option<bool>) -> Option<bool> {
    match first {
        Some(b) => Some(b),
        None => second,
    }
}

fn or_else_exec(first: Option<bool>, second: Option<bool>) -> (r: Option<bool>)
    ensures
        r == or_else(first, second),
{
    match first {
        Some(b) => Some(b),
        None => second,
    }
}

/// A group's own switches, each falling back to the default's where unset.
pub open spec fn merged(own: GroupConfig, default: GroupConfig) -> GroupConfig {
    GroupConfig {
        query: or_else(own.query, default.query),
        score: or_else(own.score, default.score),
        beatmap_preview: or_else(own.beatmap_preview, default.beatmap_preview),
        profile: or_else(own.profile, default.profile),
        highlight: or_else(own.highlight, default.highlight),
        bind: or_else(own.bind, default.bind),
        mode: or_else(own.mode, default.mode),
        help: or_else(own.help, default.help),
    }
}

/// A group's own switch wins where it is set; where it is not, the
/// default's switch applies.
pub proof fn law_merged_switches(own: GroupConfig, default: GroupConfig)
    ensures
        merged(own, default).query == (if own.query is Some { own.query } else { default.query }),
        merged(own, default).score == (if own.score is Some { own.score } else { default.score }),
        merged(own, default).beatmap_preview == (if own.beatmap_preview is Some {
            own.beatmap_preview
        } else {
            default.beatmap_preview
        }),
        merged(own, default).profile == (if own.profile is Some { own.profile } else { default.profile }),
        merged(own, default).highlight == (if own.highlight is Some { own.highlight } else { default.highlight }),
        merged(own, default).bind == (if own.bind is Some { own.bind } else { default.bind }),
        merged(own, default).mode == (if own.mode is Some { own.mode } else { default.mode }),
        merged(own, default).help == (if own.help is Some { own.help } else { default.help }),
{
}

/// The index of the first override written under `key`.
pub open spec fn is_first_override(overrides: Seq<(String, GroupConfig)>, key: Seq<char>, i: int) -> bool {
    &&& 0 <= i < overrides.len()
    &&& overrides[i].0@ == key
    &&& forall|j: int| 0 <= j < i ==> (#[trigger] overrides[j]).0@ != key
}

/// No override is written under `key`.
pub open spec fn no_override(overrides: Seq<(String, GroupConfig)>, key: Seq<char>) -> bool {
    forall|j: int| 0 <= j < overrides.len() ==> (#[trigger] overrides[j]).0@ != key
}

impl GroupsConfig {
    /// Each group id is written once among the overrides, as in the
    /// configuration's table of groups.
    pub open spec fn overrides_unique(&self) -> bool {
        forall|i: int, j: int|
            0 <= i < j < self.overrides@.len() ==> (#[trigger] self.overrides@[i]).0@ != (#[trigger] self.overrides@[j]).0@
    }

    /// The switches in effect for a group: the override written under its
    /// decimal id merged over the default, or the default alone.
    pub open spec fn config_for(&self, group_id: i64) -> GroupConfig {
        let key = int_to_dec(group_id as int);
        if exists|i: int| is_first_override(self.overrides@, key, i) {
            let i = choose|i: int| is_first_override(self.overrides@, key, i);
            merged(self.overrides@[i].1, self.default)
        } else {
            self.default
        }
    }

    /// The switches in effect for a group (see [`GroupsConfig::config_for`]).
    pub fn get_group_config(&self, group_id: i64) -> (r: GroupConfig)
        ensures
            r == self.config_for(group_id),
    {
        let key = i64_chars(group_id);
        let mut i: usize = 0;
        while i < self.overrides.len()
            invariant
                i <= self.overrides@.len(),
                key@ == int_to_dec(group_id as int),
                forall|j: int| 0 <= j < i ==> (#[trigger] self.overrides@[j]).0@ != key@,
            decreases self.overrides.len() - i,
        {
            if chars_eq(&chars_of(self.overrides[i].0.as_str()), &key) {
                proof {
                    assert(is_first_override(self.overrides@, key@, i as int));
                    let k = choose|k: int| is_first_override(self.overrides@, key@, k);
                    if k < i {
                        assert(self.overrides@[k].0@ != key@);
                    } else if k > i {
                        assert(self.overrides@[i as int].0@ != key@);
                    }
                }
                let o = self.overrides[i].1;
                let d = self.default;
                return GroupConfig {
                    query: or_else_exec(o.query, d.query),
                    score: or_else_exec(o.score, d.score),
                    beatmap_preview: or_else_exec(o.beatmap_preview, d.beatmap_preview),
                    profile: or_else_exec(o.profile, d.profile),
                    highlight: or_else_exec(o.highlight, d.highlight),
                    bind: or_else_exec(o.bind, d.bind),
                    mode: or_else_exec(o.mode, d.mode),
                    help: or_else_exec(o.help, d.help),
                };
            }
            i = i + 1;
        }
        proof {
            if exists|k: int| is_first_override(self.overrides@, key@, k) {
                let k = choose|k: int| is_first_override(self.overrides@, key@, k);
                assert(self.overrides@[k].0@ != key@);
            }
        }
        self.default
    }
}

/// `m` occurs in `s`.
pub open spec fn occurs_in(s: Seq<char>, m: Seq<char>) -> bool {
    exists|i: int| 0 <= i && i + m.len() <= s.len() && #[trigger] s.subrange(i, i + m.len()) == m
}

proof fn lemma_occurs_between(a: Seq<char>, m: Seq<char>, b: Seq<char>)
    ensures
        occurs_in(a + m + b, m),
{
    let s = a + m + b;
    let i = a.len() as int;
    assert(s.subrange(i, i + m.len()) =~= m);
}

/// Each debug text shows the quoted placeholder `<redacted>` where its secret would be.
pub proof fn law_debug_shows_placeholder(o: OsuConfig, c: IrcConfig, p: ProviderConfig)
    ensures
        occurs_in(osu_debug_text(o), quoted("<redacted>"@)),
        occurs_in(irc_debug_text(c), quoted("<redacted>"@)),
        occurs_in(provider_debug_text(p), quoted("<redacted>"@)),
{
    let q = quoted("<redacted>"@);
    lemma_occurs_between("OsuConfig { client_id: "@ + str_debug(o.client_id@) + ", client_secret: "@, q, " }"@);
    lemma_occurs_between(
        "IrcConfig { enabled: "@ + bool_debug(c.enabled) + ", server: "@ + str_debug(c.server@) + ", port: "@
            + dec_digits(c.port as nat) + ", nickname: "@ + str_debug(c.nickname@) + ", password: "@,
        q,
        " }"@,
    );
    let head = "ProviderConfig { provider_type: "@ + str_debug(p.provider_type@) + ", rate_per_minute: "@
        + dec_digits(p.rate_per_minute as nat) + ", burst: "@ + dec_digits(p.burst as nat) + ", url: "@
        + opt_str_debug(p.url) + ", access_token: "@;
    let tail = ", self_id: "@ + opt_int_debug(p.self_id) + ", timeout_secs: "@ + dec_digits(p.timeout_secs as nat)
        + " }"@;
    assert(provider_debug_text(p) =~= head + q + tail);
    lemma_occurs_between(head, q, tail);
}

/// The debug texts of the settings never depend on the secrets they hold:
/// two settings that differ only in the osu! client secret, the IRC password
/// or a provider's access token print alike.
pub proof fn law_debug_ignores_secrets(
    o1: OsuConfig,
    o2: OsuConfig,
    i1: IrcConfig,
    i2: IrcConfig,
    p1: ProviderConfig,
    p2: ProviderConfig,
)
    ensures
        o1.client_id@ == o2.client_id@ ==> osu_debug_text(o1) == osu_debug_text(o2),
        i1.enabled == i2.enabled && i1.server@ == i2.server@ && i1.port == i2.port && i1.nickname@
            == i2.nickname@ ==> irc_debug_text(i1) == irc_debug_text(i2),
        p1.provider_type@ == p2.provider_type@ && p1.rate_per_minute == p2.rate_per_minute && p1.burst
            == p2.burst && p1.url == p2.url && p1.self_id == p2.self_id && p1.timeout_secs
            == p2.timeout_secs ==> provider_debug_text(p1) == provider_debug_text(p2),
{
}

/// With each group id written once, the overrides act as a table keyed by
/// the id: a group written under its decimal id gets that entry merged over
/// the default.
pub proof fn law_override_table(groups: GroupsConfig, group_id: i64, i: int)
    requires
        groups.overrides_unique(),
        0 <= i < groups.overrides@.len(),
        groups.overrides@[i].0@ == int_to_dec(group_id as int),
    ensures
        groups.config_for(group_id) == merged(groups.overrides@[i].1, groups.default),
{
    let key = int_to_dec(group_id as int);
    assert(is_first_override(groups.overrides@, key, i));
    let k = choose|k: int| is_first_override(groups.overrides@, key, k);
    if k != i {
        if k < i {
            assert(groups.overrides@[k].0@ != groups.overrides@[i].0@);
        } else {
            assert(groups.overrides@[i].0@ != key);
        }
    }
}

} // verus!

verus! {

/// What `{:?}` writes for a string: the string quoted, with escapes.
pub uninterp spec fn str_debug(s: Seq<char>) -> Seq<char>;

/// A printable ASCII character that `{:?}` writes as it is: not a quote or a backslash.
pub open spec fn debug_plain(c: char) -> bool {
    ' ' <= c <= '~' && c != '"' && c != '\\'
}

/// `<str as Debug>::fmt`, called through `format!("{:?}")`. Trusted: the text
/// it writes depends on the string alone; in general what it is, is left to
/// the name, but a string of printable ASCII without quotes or backslashes is
/// written as it is, between double quotes.
#[verifier::external_body]
fn debug_quoted(s: &str) -> (r: String)
    ensures
        r@ == str_debug(s@),
        (forall|i: int| 0 <= i < s@.len() ==> debug_plain(#[trigger] s@[i])) ==> r@ == seq!['"'] + s@ + seq!['"'],
{
    format!("{:?}", s)
}

/// What `{:?}` writes for an optional string.
pub open spec fn opt_str_debug(o: Option<String>) -> Seq<char> {
    match o {
        Some(s) => "Some("@ + str_debug(s@) + ")"@,
        None => "None"@,
    }
}

/// What `{:?}` writes for an optional integer.
pub open spec fn opt_int_debug(o: Option<i64>) -> Seq<char> {
    match o {
        Some(n) => "Some("@ + int_to_dec(n as int) + ")"@,
        None => "None"@,
    }
}

/// What `{:?}` writes for a `bool`.
pub open spec fn bool_debug(b: bool) -> Seq<char> {
    if b {
        "true"@
    } else {
        "false"@
    }
}

/// The debug text of the osu! credentials: the client id, and the secret
/// replaced by `<redacted>`.
pub open spec fn osu_debug_text(c: OsuConfig) -> Seq<char> {
    "OsuConfig { client_id: "@ + str_debug(c.client_id@) + ", client_secret: "@ + quoted("<redacted>"@)
        + " }"@
}

/// The debug text of the IRC settings, the password replaced by `<redacted>`.
pub open spec fn irc_debug_text(c: IrcConfig) -> Seq<char> {
    "IrcConfig { enabled: "@ + bool_debug(c.enabled) + ", server: "@ + str_debug(c.server@)
        + ", port: "@ + dec_digits(c.port as nat) + ", nickname: "@ + str_debug(c.nickname@)
        + ", password: "@ + quoted("<redacted>"@) + " }"@
}

/// The debug text of a provider, the access token replaced by `<redacted>`.
pub open spec fn provider_debug_text(c: ProviderConfig) -> Seq<char> {
    "ProviderConfig { provider_type: "@ + str_debug(c.provider_type@) + ", rate_per_minute: "@
        + dec_digits(c.rate_per_minute as nat) + ", burst: "@ + dec_digits(c.burst as nat)
        + ", url: "@ + opt_str_debug(c.url) + ", access_token: "@ + quoted("<redacted>"@)
        + ", self_id: "@ + opt_int_debug(c.self_id) + ", timeout_secs: "@ + dec_digits(
        c.timeout_secs as nat,
    ) + " }"@
}

/// A string between double quotes.
pub open spec fn quoted(s: Seq<char>) -> Seq<char> {
    seq!['"'] + s + seq!['"']
}

fn push_debug_str(dst: &mut Vec<char>, s: &str)
    ensures
        final(dst)@ == old(dst)@ + str_debug(s@),
        (forall|i: int| 0 <= i < s@.len() ==> debug_plain(#[trigger] s@[i])) ==> final(dst)@ == old(dst)@ + quoted(s@),
{
    let d = debug_quoted(s);
    push_str(dst, d.as_str());
}

/// The placeholder written for a secret, quoted as `{:?}` writes it.
fn push_redacted(dst: &mut Vec<char>)
    ensures
        final(dst)@ == old(dst)@ + quoted("<redacted>"@),
{
    proof {
        reveal_strlit("<redacted>");
        assert forall|i: int| 0 <= i < "<redacted>"@.len() implies debug_plain(#[trigger] "<redacted>"@[i]) by {}
    }
    push_debug_str(dst, "<redacted>");
}

fn push_bool(dst: &mut Vec<char>, b: bool)
    ensures
        final(dst)@ == old(dst)@ + bool_debug(b),
{
    if b {
        push_str(dst, "true");
    } else {
        push_str(dst, "false");
    }
}

fn push_u64(dst: &mut Vec<char>, n: u64)
    ensures
        final(dst)@ == old(dst)@ + dec_digits(n as nat),
{
    let d = u64_digits(n);
    push_all(dst, &d);
}

impl OsuConfig {
    /// The `Debug` text of the credentials, which never shows the secret.
    pub fn redacted_debug(&self) -> (r: String)
        ensures
            r@ == osu_debug_text(*self),
    {
        let mut v: Vec<char> = Vec::new();
        push_str(&mut v, "OsuConfig { client_id: ");
        push_debug_str(&mut v, self.client_id.as_str());
        push_str(&mut v, ", client_secret: ");
        push_redacted(&mut v);
        push_str(&mut v, " }");
        string_of(&v)
    }
}

impl IrcConfig {
    /// The `Debug` text of the IRC settings, which never shows the password.
    pub fn redacted_debug(&self) -> (r: String)
        ensures
            r@ == irc_debug_text(*self),
    {
        let mut v: Vec<char> = Vec::new();
        push_str(&mut v, "IrcConfig { enabled: ");
        push_bool(&mut v, self.enabled);
        push_str(&mut v, ", server: ");
        push_debug_str(&mut v, self.server.as_str());
        push_str(&mut v, ", port: ");
        push_u64(&mut v, self.port as u64);
        push_str(&mut v, ", nickname: ");
        push_debug_str(&mut v, self.nickname.as_str());
        push_str(&mut v, ", password: ");
        push_redacted(&mut v);
        push_str(&mut v, " }");
        string_of(&v)
    }
}

impl ProviderConfig {
    /// The `Debug` text of a provider, which never shows the access token.
    pub fn redacted_debug(&self) -> (r: String)
        ensures
            r@ == provider_debug_text(*self),
    {
        let mut v: Vec<char> = Vec::new();
        push_str(&mut v, "ProviderConfig { provider_type: ");
        push_debug_str(&mut v, self.provider_type.as_str());
        push_str(&mut v, ", rate_per_minute: ");
        push_u64(&mut v, self.rate_per_minute as u64);
        push_str(&mut v, ", burst: ");
        push_u64(&mut v, self.burst as u64);
        push_str(&mut v, ", url: ");
        match &self.url {
            Some(u) => {
                push_str(&mut v, "Some(");
                push_debug_str(&mut v, u.as_str());
                push_str(&mut v, ")");
            },
            None => push_str(&mut v, "None"),
        }
        push_str(&mut v, ", access_token: ");
        push_redacted(&mut v);
        push_str(&mut v, ", self_id: ");
        match self.self_id {
            Some(n) => {
                push_str(&mut v, "Some(");
                let d = i64_chars(n);
                push_all(&mut v, &d);
                push_str(&mut v, ")");
            },
            None => push_str(&mut v, "None"),
        }
        push_str(&mut v, ", timeout_secs: ");
        push_u64(&mut v, self.timeout_secs);
        push_str(&mut v, " }");
        string_of(&v)
    }
}

/// The debug text of credentials does not depend on the secret: two
/// credentials with the same client id print the same.
pub proof fn law_osu_debug_hides_secret(a: OsuConfig, b: OsuConfig)
    requires
        a.client_id@ == b.client_id@,
    ensures
        osu_debug_text(a) == osu_debug_text(b),
{
}

/// The debug text of IRC settings does not depend on the password.
pub proof fn law_irc_debug_hides_password(a: IrcConfig, b: IrcConfig)
    requires
        a.enabled == b.enabled,
        a.server@ == b.server@,
        a.port == b.port,
        a.nickname@ == b.nickname@,
    ensures
        irc_debug_text(a) == irc_debug_text(b),
{
}

/// The debug text of a provider does not depend on its access token.
pub proof fn law_provider_debug_hides_token(a: ProviderConfig, b: ProviderConfig)
    requires
        a.provider_type@ == b.provider_type@,
        a.rate_per_minute == b.rate_per_minute,
        a.burst == b.burst,
        opt_str_debug(a.url) == opt_str_debug(b.url),
        a.self_id == b.self_id,
        a.timeout_secs == b.timeout_secs,
    ensures
        provider_debug_text(a) == provider_debug_text(b),
{
}

} // verus!

verus! {

/// `prefix`, a number and `suffix`.
pub open spec fn numbered(prefix: Seq<char>, n: int, suffix: Seq<char>) -> Seq<char> {
    prefix + int_to_dec(n) + suffix
}

/// The first rule the configuration breaks, as its message, or `None`.
pub open spec fn validation_message(c: Config) -> Option<Seq<char>> {
    let b = c.bot;
    let s = c.scheduler;
    if b.onebot_url@.len() == 0 {
        Some("onebot_url 为空"@)
    } else if b.command_timeout_secs < 5 {
        Some(numbered("command_timeout_secs 过小（"@, b.command_timeout_secs as int, " < 5 秒）"@))
    } else if b.render_timeout_secs < 5 {
        Some(numbered("render_timeout_secs 过小（"@, b.render_timeout_secs as int, " < 5 秒）"@))
    } else if b.onebot_api_timeout_secs < 2 {
        Some(numbered("onebot_api_timeout_secs 过小（"@, b.onebot_api_timeout_secs as int, " < 2 秒）"@))
    } else if b.ur_timeout_secs < 3 {
        Some(numbered("ur_timeout_secs 过小（"@, b.ur_timeout_secs as int, " < 3 秒）"@))
    } else if b.command_timeout_secs > 3600 {
        Some(numbered("command_timeout_secs 过大（"@, b.command_timeout_secs as int, " > 3600 秒）"@))
    } else if b.render_timeout_secs > 600 {
        Some(numbered("render_timeout_secs 过大（"@, b.render_timeout_secs as int, " > 600 秒）"@))
    } else if b.onebot_api_timeout_secs > 120 {
        Some(numbered("onebot_api_timeout_secs 过大（"@, b.onebot_api_timeout_secs as int, " > 120 秒）"@))
    } else if b.ur_timeout_secs > 300 {
        Some(numbered("ur_timeout_secs 过大（"@, b.ur_timeout_secs as int, " > 300 秒）"@))
    } else if s.interval_minutes > 1440 {
        Some(numbered("scheduler.interval_minutes 过大（"@, s.interval_minutes as int, " > 1440 分钟 = 1 天）"@))
    } else if s.semi_active_interval_hours < 0 {
        Some(numbered("scheduler.semi_active_interval_hours 不能为负（"@, s.semi_active_interval_hours as int, "）"@))
    } else if s.normal_interval_hours < 0 {
        Some(numbered("scheduler.normal_interval_hours 不能为负（"@, s.normal_interval_hours as int, "）"@))
    } else if s.inactive_interval_hours < 0 {
        Some(numbered("scheduler.inactive_interval_hours 不能为负（"@, s.inactive_interval_hours as int, "）"@))
    } else if s.no_recent_interval_hours < 0 {
        Some(numbered("scheduler.no_recent_interval_hours 不能为负（"@, s.no_recent_interval_hours as int, "）"@))
    } else if s.user_not_exists_interval_hours < 0 {
        Some(numbered("scheduler.user_not_exists_interval_hours 不能为负（"@, s.user_not_exists_interval_hours as int, "）"@))
    } else {
        None
    }
}

fn unsigned_message(prefix: &str, n: u64, suffix: &str) -> (r: ConfigError)
    ensures
        r matches ConfigError::Validation(m) && m@ == numbered(prefix@, n as int, suffix@),
{
    let mut v: Vec<char> = Vec::new();
    push_str(&mut v, prefix);
    let d = u64_digits(n);
    push_all(&mut v, &d);
    push_str(&mut v, suffix);
    ConfigError::Validation(string_of(&v))
}

fn signed_message(prefix: &str, n: i64, suffix: &str) -> (r: ConfigError)
    ensures
        r matches ConfigError::Validation(m) && m@ == numbered(prefix@, n as int, suffix@),
{
    let mut v: Vec<char> = Vec::new();
    push_str(&mut v, prefix);
    let d = i64_chars(n);
    push_all(&mut v, &d);
    push_str(&mut v, suffix);
    ConfigError::Validation(string_of(&v))
}

impl Config {
    /// Checks the configuration's rules in order and reports the first one broken.
    pub fn validate(&self) -> (r: Result<(), ConfigError>)
        ensures
            match r {
                Ok(()) => validation_message(*self) is None,
                Err(ConfigError::Validation(m)) => validation_message(*self) == Some(m@),
            },
    {
        let b = &self.bot;
        let s = &self.scheduler;
        if b.onebot_url.as_str().is_empty() {
            return Err(ConfigError::Validation(owned("onebot_url 为空")));
        }
        if b.command_timeout_secs < 5 {
            return Err(unsigned_message("command_timeout_secs 过小（", b.command_timeout_secs, " < 5 秒）"));
        }
        if b.render_timeout_secs < 5 {
            return Err(unsigned_message("render_timeout_secs 过小（", b.render_timeout_secs, " < 5 秒）"));
        }
        if b.onebot_api_timeout_secs < 2 {
            return Err(unsigned_message("onebot_api_timeout_secs 过小（", b.onebot_api_timeout_secs, " < 2 秒）"));
        }
        if b.ur_timeout_secs < 3 {
            return Err(unsigned_message("ur_timeout_secs 过小（", b.ur_timeout_secs, " < 3 秒）"));
        }
        if b.command_timeout_secs > 3600 {
            return Err(unsigned_message("command_timeout_secs 过大（", b.command_timeout_secs, " > 3600 秒）"));
        }
        if b.render_timeout_secs > 600 {
            return Err(unsigned_message("render_timeout_secs 过大（", b.render_timeout_secs, " > 600 秒）"));
        }
        if b.onebot_api_timeout_secs > 120 {
            return Err(unsigned_message("onebot_api_timeout_secs 过大（", b.onebot_api_timeout_secs, " > 120 秒）"));
        }
        if b.ur_timeout_secs > 300 {
            return Err(unsigned_message("ur_timeout_secs 过大（", b.ur_timeout_secs, " > 300 秒）"));
        }
        if s.interval_minutes > 1440 {
            return Err(unsigned_message("scheduler.interval_minutes 过大（", s.interval_minutes, " > 1440 分钟 = 1 天）"));
        }
        if s.semi_active_interval_hours < 0 {
            return Err(signed_message("scheduler.semi_active_interval_hours 不能为负（", s.semi_active_interval_hours, "）"));
        }
        if s.normal_interval_hours < 0 {
            return Err(signed_message("scheduler.normal_interval_hours 不能为负（", s.normal_interval_hours, "）"));
        }
        if s.inactive_interval_hours < 0 {
            return Err(signed_message("scheduler.inactive_interval_hours 不能为负（", s.inactive_interval_hours, "）"));
        }
        if s.no_recent_interval_hours < 0 {
            return Err(signed_message("scheduler.no_recent_interval_hours 不能为负（", s.no_recent_interval_hours, "）"));
        }
        if s.user_not_exists_interval_hours < 0 {
            return Err(signed_message("scheduler.user_not_exists_interval_hours 不能为负（", s.user_not_exists_interval_hours, "）"));
        }
        Ok(())
    }
}

/// A configuration that passes validation has every timeout and interval
/// within its bounds.
pub proof fn law_valid_config_bounds(c: Config)
    requires
        validation_message(c) is None,
    ensures
        c.bot.onebot_url@.len() > 0,
        5 <= c.bot.command_timeout_secs <= 3600,
        5 <= c.bot.render_timeout_secs <= 600,
        2 <= c.bot.onebot_api_timeout_secs <= 120,
        3 <= c.bot.ur_timeout_secs <= 300,
        c.scheduler.interval_minutes <= 1440,
        c.scheduler.semi_active_interval_hours >= 0,
        c.scheduler.normal_interval_hours >= 0,
        c.scheduler.inactive_interval_hours >= 0,
        c.scheduler.no_recent_interval_hours >= 0,
        c.scheduler.user_not_exists_interval_hours >= 0,
{
}

} // verus!

verus! {

impl OsuConfig {
    /// A copy of the credentials.
    pub fn duplicate(&self) -> (r: Self)
        ensures
            r == *self,
    {
        OsuConfig { client_secret: self.client_secret.clone(), client_id: self.client_id.clone() }
    }
}

impl BotConfig {
    /// A copy of the bot settings.
    pub fn duplicate(&self) -> (r: Self)
        ensures
            r == *self,
    {
        BotConfig {
            onebot_url: self.onebot_url.clone(),
            command_timeout_secs: self.command_timeout_secs,
            render_timeout_secs: self.render_timeout_secs,
            onebot_api_timeout_secs: self.onebot_api_timeout_secs,
            ur_timeout_secs: self.ur_timeout_secs,
        }
    }
}

impl DatabaseConfig {
    /// A copy of the database settings.
    pub fn duplicate(&self) -> (r: Self)
        ensures
            r == *self,
    {
        DatabaseConfig { path: self.path.clone() }
    }
}

impl IrcConfig {
    /// A copy of the IRC settings.
    pub fn duplicate(&self) -> (r: Self)
        ensures
            r == *self,
    {
        IrcConfig {
            enabled: self.enabled,
            server: self.server.clone(),
            port: self.port,
            nickname: self.nickname.clone(),
            password: self.password.clone(),
        }
    }
}

} // verus!
