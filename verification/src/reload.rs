//! Hot reload of the configuration: merging the re-read file into the
//! running configuration, which side effects a change calls for, which
//! upstream providers the new configuration names, and how a reload ends
//! (what configuration runs afterwards and whether new work is held back).

use vstd::prelude::*;
use crate::config::{
    BotConfig, Config, ConfigError, GroupFilterConfig, GroupsConfig, IrcConfig, OsuConfig,
    SchedulerConfig, UpstreamConfig, validation_message,
};
use crate::text::{eq_str, push_str, string_of};

verus! {

/// What a reload reads from the file. A section that is absent (`None`)
/// keeps its running value; the filters, switches and upstream providers
/// are always taken from the file.
#[derive(Clone)]
pub struct MutableConfig {
    pub osu: Option<OsuConfig>,
    pub scheduler: Option<SchedulerConfig>,
    pub group_filter: GroupFilterConfig,
    pub groups: GroupsConfig,
    pub upstream: UpstreamConfig,
    pub bot: Option<BotConfig>,
    pub irc: Option<IrcConfig>,
}

/// The configuration a reload runs with: each optional section from the
/// file if present, else the running one; the database path is never
/// reloaded.
pub open spec fn merged_config(old: Config, m: MutableConfig) -> Config {
    Config {
        osu: match m.osu {
            Some(o) => o,
            None => old.osu,
        },
        bot: match m.bot {
            Some(b) => b,
            None => old.bot,
        },
        database: old.database,
        scheduler: match m.scheduler {
            Some(s) => s,
            None => old.scheduler,
        },
        irc: match m.irc {
            Some(i) => i,
            None => old.irc,
        },
        group_filter: m.group_filter,
        groups: m.groups,
        upstream: m.upstream,
    }
}

/// Merges the re-read sections into the running configuration and checks
/// the result (see [`merged_config`] and [`Config::validate`]).
pub fn reload_config(old: &Config, m: MutableConfig) -> (r: Result<Config, ConfigError>)
    ensures
        match r {
            Ok(c) => c == merged_config(*old, m) && validation_message(c) is None,
            Err(ConfigError::Validation(msg)) => validation_message(merged_config(*old, m)) == Some(msg@),
        },
{
    let new_config = Config {
        osu: match m.osu {
            Some(o) => o,
            None => old.osu.duplicate(),
        },
        bot: match m.bot {
            Some(b) => b,
            None => old.bot.duplicate(),
        },
        database: old.database.duplicate(),
        scheduler: match m.scheduler {
            Some(s) => s,
            None => old.scheduler,
        },
        irc: match m.irc {
            Some(i) => i,
            None => old.irc.duplicate(),
        },
        group_filter: m.group_filter,
        groups: m.groups,
        upstream: m.upstream,
    };
    match new_config.validate() {
        Ok(()) => Ok(new_config),
        Err(e) => Err(e),
    }
}

} // verus!

verus! {

/// The side effects a new configuration calls for.
#[derive(Debug, Clone, Copy, PartialEq, Eq, Structural)]
pub struct SideEffects {
    /// The OneBot request timeout to use from now on.
    pub onebot_api_timeout_secs: u64,
    /// The osu! credentials changed: the OAuth cache takes the new ones.
    pub update_oauth: bool,
    /// An IRC setting changed: the IRC connection restarts.
    pub restart_irc: bool,
    /// The OneBot address changed: the WebSocket reconnects.
    pub reconnect_onebot: bool,
}

/// The side effects of going from `old` to `new`.
pub open spec fn side_effects_spec(old: Config, new: Config) -> SideEffects {
    SideEffects {
        onebot_api_timeout_secs: new.bot.onebot_api_timeout_secs,
        update_oauth: new.osu.client_id@ != old.osu.client_id@ || new.osu.client_secret@ != old.osu.client_secret@,
        restart_irc: new.irc.enabled != old.irc.enabled || new.irc.server@ != old.irc.server@ || new.irc.port
            != old.irc.port || new.irc.nickname@ != old.irc.nickname@ || new.irc.password@ != old.irc.password@,
        reconnect_onebot: old.bot.onebot_url@ != new.bot.onebot_url@,
    }
}

fn same(a: &String, b: &String) -> (r: bool)
    ensures
        r == (a@ == b@),
{
    eq_str(a.as_str(), b.as_str())
}

/// The side effects of going from `old` to `new` (see [`side_effects_spec`]).
pub fn plan_side_effects(old: &Config, new: &Config) -> (r: SideEffects)
    ensures
        r == side_effects_spec(*old, *new),
{
    SideEffects {
        onebot_api_timeout_secs: new.bot.onebot_api_timeout_secs,
        update_oauth: !same(&new.osu.client_id, &old.osu.client_id) || !same(&new.osu.client_secret, &old.osu.client_secret),
        restart_irc: new.irc.enabled != old.irc.enabled || !same(&new.irc.server, &old.irc.server) || new.irc.port
            != old.irc.port || !same(&new.irc.nickname, &old.irc.nickname) || !same(&new.irc.password, &old.irc.password),
        reconnect_onebot: !same(&old.bot.onebot_url, &new.bot.onebot_url),
    }
}

/// The IRC connection restarts exactly when an IRC setting changed: whether
/// it is on, the server, the port, the nickname or the password.
pub proof fn law_irc_restart(old: Config, new: Config)
    ensures
        side_effects_spec(old, new).restart_irc <==> !(new.irc.enabled == old.irc.enabled && new.irc.server@
            == old.irc.server@ && new.irc.port == old.irc.port && new.irc.nickname@ == old.irc.nickname@
            && new.irc.password@ == old.irc.password@),
        new.irc.password@ != old.irc.password@ ==> side_effects_spec(old, new).restart_irc,
        new.irc.nickname@ != old.irc.nickname@ ==> side_effects_spec(old, new).restart_irc,
        new.irc.server@ != old.irc.server@ ==> side_effects_spec(old, new).restart_irc,
        new.irc.port != old.irc.port ==> side_effects_spec(old, new).restart_irc,
        new.irc.enabled != old.irc.enabled ==> side_effects_spec(old, new).restart_irc,
{
}

/// The other side effects of a reload: the OAuth credentials are renewed
/// exactly when the client id or secret changed, the WebSocket reconnects
/// exactly when the OneBot address changed, and the API timeout is always
/// the new one.
pub proof fn law_other_side_effects(old: Config, new: Config)
    ensures
        side_effects_spec(old, new).update_oauth <==> !(new.osu.client_id@ == old.osu.client_id@
            && new.osu.client_secret@ == old.osu.client_secret@),
        side_effects_spec(old, new).reconnect_onebot <==> new.bot.onebot_url@ != old.bot.onebot_url@,
        side_effects_spec(old, new).onebot_api_timeout_secs == new.bot.onebot_api_timeout_secs,
{
}

/// Reloading an unchanged configuration has no side effect beyond setting
/// the same request timeout again.
pub proof fn law_unchanged_reload_is_quiet(c: Config)
    ensures
        !side_effects_spec(c, c).update_oauth,
        !side_effects_spec(c, c).restart_irc,
        !side_effects_spec(c, c).reconnect_onebot,
        side_effects_spec(c, c).onebot_api_timeout_secs == c.bot.onebot_api_timeout_secs,
{
}

/// The upstream binding providers.
#[derive(Debug, Clone, Copy, PartialEq, Eq, Structural)]
pub enum ProviderKind {
    Xfs,
    Yumu,
}

/// The kind a provider type names, if it names one.
pub open spec fn kind_of(t: Seq<char>) -> Option<ProviderKind> {
    if t == "xfs"@ {
        Some(ProviderKind::Xfs)
    } else if t == "yumu"@ {
        Some(ProviderKind::Yumu)
    } else {
        None
    }
}

/// The message for a provider type that names no provider.
pub open spec fn unknown_provider_message(t: Seq<char>) -> Seq<char> {
    "未知的 upstream provider 类型「"@ + t + "」（已知：xfs、yumu）"@
}

/// The providers of the chain, in order: none when upstream is disabled;
/// an error for the first provider of an unknown type.
pub open spec fn chain_spec(types: Seq<Seq<char>>, enabled: bool) -> Result<Seq<ProviderKind>, Seq<char>>
    decreases types.len(),
{
    if !enabled || types.len() == 0 {
        Ok(Seq::empty())
    } else {
        match chain_spec(types.drop_last(), enabled) {
            Err(e) => Err(e),
            Ok(kinds) => match kind_of(types.last()) {
                Some(k) => Ok(kinds.push(k)),
                None => Err(unknown_provider_message(types.last())),
            },
        }
    }
}

/// The types the providers are configured with.
pub open spec fn provider_types(u: UpstreamConfig) -> Seq<Seq<char>> {
    u.providers@.map_values(|p: crate::config::ProviderConfig| p.provider_type@)
}

/// The kinds of the upstream providers (see [`chain_spec`]).
pub fn provider_kinds(upstream: &UpstreamConfig) -> (r: Result<Vec<ProviderKind>, ConfigError>)
    ensures
        match r {
            Ok(v) => chain_spec(provider_types(*upstream), upstream.enabled) == Ok::<Seq<ProviderKind>, Seq<char>>(v@),
            Err(ConfigError::Validation(m)) => chain_spec(provider_types(*upstream), upstream.enabled) == Err::<Seq<ProviderKind>, Seq<char>>(m@),
        },
{
    let ghost types = provider_types(*upstream);
    let mut kinds: Vec<ProviderKind> = Vec::new();
    if !upstream.enabled {
        proof {
            assert(chain_spec(types, false) == Ok::<Seq<ProviderKind>, Seq<char>>(Seq::empty()));
        }
        return Ok(kinds);
    }
    let mut i: usize = 0;
    while i < upstream.providers.len()
        invariant
            i <= upstream.providers@.len(),
            upstream.enabled,
            types == provider_types(*upstream),
            chain_spec(types.take(i as int), true) == Ok::<Seq<ProviderKind>, Seq<char>>(kinds@),
        decreases upstream.providers.len() - i,
    {
        let t = upstream.providers[i].provider_type.as_str();
        proof {
            assert(types.take(i as int + 1).drop_last() =~= types.take(i as int));
            assert(types.take(i as int + 1).last() == t@);
        }
        if eq_str(t, "xfs") {
            kinds.push(ProviderKind::Xfs);
        } else if eq_str(t, "yumu") {
            kinds.push(ProviderKind::Yumu);
        } else {
            let mut v: Vec<char> = Vec::new();
            push_str(&mut v, "未知的 upstream provider 类型「");
            push_str(&mut v, t);
            push_str(&mut v, "」（已知：xfs、yumu）");
            proof {
                assert(v@ =~= unknown_provider_message(t@));
                lemma_chain_error_persists(types, i as int + 1);
            }
            return Err(ConfigError::Validation(string_of(&v)));
        }
        i = i + 1;
    }
    proof {
        assert(types.take(types.len() as int) =~= types);
    }
    Ok(kinds)
}

proof fn lemma_chain_error_persists(types: Seq<Seq<char>>, k: int)
    requires
        1 <= k <= types.len(),
        chain_spec(types.take(k), true) is Err,
    ensures
        chain_spec(types, true) == chain_spec(types.take(k), true),
    decreases types.len() - k,
{
    if k < types.len() {
        assert(types.take(k + 1).drop_last() =~= types.take(k));
        lemma_chain_error_persists(types, k + 1);
    } else {
        assert(types.take(k) =~= types);
    }
}

/// What happens to the IRC connection under new settings.
#[derive(Debug, Clone, Copy, PartialEq, Eq, Structural)]
pub enum IrcRestart {
    /// IRC is off: the old connection is stopped and none started.
    Disabled,
    /// A nickname or password is missing: no connection is started.
    Skipped,
    /// A new connection is started.
    Start,
}

/// What happens to the IRC connection under these settings.
pub fn irc_restart(cfg: &IrcConfig) -> (r: IrcRestart)
    ensures
        r == (if !cfg.enabled {
            IrcRestart::Disabled
        } else if cfg.nickname@.len() == 0 || cfg.password@.len() == 0 {
            IrcRestart::Skipped
        } else {
            IrcRestart::Start
        }),
{
    if !cfg.enabled {
        IrcRestart::Disabled
    } else if cfg.nickname.as_str().is_empty() || cfg.password.as_str().is_empty() {
        IrcRestart::Skipped
    } else {
        IrcRestart::Start
    }
}

/// How long a reload waits for work in flight (thirty seconds, in milliseconds).
pub const DRAIN_TIMEOUT_MILLIS: u64 = 30_000;

/// The state of waiting for work in flight.
#[derive(Debug, Clone, Copy, PartialEq, Eq, Structural)]
pub enum DrainWait {
    Drained,
    TimedOut,
    KeepWaiting,
}

/// Nothing in flight: drained; thirty seconds gone: timed out; else wait on.
pub fn drain_wait(in_flight: usize, elapsed_millis: u64) -> (r: DrainWait)
    ensures
        r == (if in_flight == 0 {
            DrainWait::Drained
        } else if elapsed_millis >= DRAIN_TIMEOUT_MILLIS {
            DrainWait::TimedOut
        } else {
            DrainWait::KeepWaiting
        }),
{
    if in_flight == 0 {
        DrainWait::Drained
    } else if elapsed_millis >= DRAIN_TIMEOUT_MILLIS {
        DrainWait::TimedOut
    } else {
        DrainWait::KeepWaiting
    }
}

/// How a reload ends.
#[derive(Debug, Clone, Copy, PartialEq, Eq, Structural)]
pub struct ReloadEnd {
    /// The new configuration is put in place (else the running one stays).
    pub install_new_config: bool,
    /// The side effects are applied.
    pub apply_side_effects: bool,
    /// New messages stay held back afterwards.
    pub keep_draining: bool,
}

/// Where a reload stops, given what each stage reported: a configuration
/// that fails to load or validate leaves everything as it was and lets work
/// in; a drain that timed out, a plugin reload that failed, or side effects
/// that failed keep work held back; only a full success lets work in with
/// the new configuration. A failed plugin reload puts the running
/// configuration back; failed side effects leave the new one in place.
pub open spec fn reload_end_spec(config_ok: bool, drained: bool, plugins_ok: bool, effects_ok: bool) -> ReloadEnd {
    if !config_ok {
        ReloadEnd { install_new_config: false, apply_side_effects: false, keep_draining: false }
    } else if !drained {
        ReloadEnd { install_new_config: false, apply_side_effects: false, keep_draining: true }
    } else if !plugins_ok {
        ReloadEnd { install_new_config: false, apply_side_effects: false, keep_draining: true }
    } else if !effects_ok {
        ReloadEnd { install_new_config: true, apply_side_effects: true, keep_draining: true }
    } else {
        ReloadEnd { install_new_config: true, apply_side_effects: true, keep_draining: false }
    }
}

/// Where a reload stops (see [`reload_end_spec`]).
pub fn reload_end(config_ok: bool, drained: bool, plugins_ok: bool, effects_ok: bool) -> (r: ReloadEnd)
    ensures
        r == reload_end_spec(config_ok, drained, plugins_ok, effects_ok),
{
    if !config_ok {
        ReloadEnd { install_new_config: false, apply_side_effects: false, keep_draining: false }
    } else if !drained {
        ReloadEnd { install_new_config: false, apply_side_effects: false, keep_draining: true }
    } else if !plugins_ok {
        ReloadEnd { install_new_config: false, apply_side_effects: false, keep_draining: true }
    } else if !effects_ok {
        ReloadEnd { install_new_config: true, apply_side_effects: true, keep_draining: true }
    } else {
        ReloadEnd { install_new_config: true, apply_side_effects: true, keep_draining: false }
    }
}

/// A new configuration runs only after it validated, the work in flight
/// drained and the plugins reloaded; and work is let in again only when
/// the reload fully succeeded or never got past loading the file.
pub proof fn law_reload_installs_only_on_success(config_ok: bool, drained: bool, plugins_ok: bool, effects_ok: bool)
    ensures
        reload_end_spec(config_ok, drained, plugins_ok, effects_ok).install_new_config ==> config_ok && drained && plugins_ok,
        !reload_end_spec(config_ok, drained, plugins_ok, effects_ok).keep_draining ==> !config_ok || (drained && plugins_ok && effects_ok),
{
}

} // verus!
