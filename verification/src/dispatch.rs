//! How an incoming command is dispatched: the throttle, the plugins, the
//! group's command switches and the handler a command goes to; which mode a
//! query uses; and the IRC message that completes a binding.

use vstd::prelude::*;
use crate::flows::{Lookup, Step, replies, qq_and};
use crate::reply::{Reply, reply_to, reply_view, qq_reply, with_sub};
use crate::text::{chars_of, lowercase, replace_all, replace_spec, string_of, to_lowercase, chars_eq};

verus! {

/// The commands of the bot.
#[derive(Debug, Clone, Copy, PartialEq, Eq, Structural)]
pub enum CommandKind {
    QuerySelf,
    QueryUser,
    QueryMentionedUser,
    Pass,
    Recent,
    Best,
    TodayBest,
    ScoreOnBeatmap,
    BeatmapAudio,
    BeatmapPreview,
    SetDefaultMode,
    Bind,
    Unbind,
    Help,
    Highlight,
    ProfileCard,
}

/// The commands whose answer depends on a game mode.
pub open spec fn mode_sensitive_spec(k: CommandKind) -> bool {
    match k {
        CommandKind::QuerySelf | CommandKind::QueryUser | CommandKind::QueryMentionedUser | CommandKind::Pass
        | CommandKind::Recent | CommandKind::Best | CommandKind::ScoreOnBeatmap | CommandKind::Highlight
        | CommandKind::BeatmapAudio => true,
        _ => false,
    }
}

/// Whether a command depends on a game mode (only those read a stored default).
pub fn mode_sensitive(k: CommandKind) -> (r: bool)
    ensures
        r == mode_sensitive_spec(k),
{
    match k {
        CommandKind::QuerySelf | CommandKind::QueryUser | CommandKind::QueryMentionedUser | CommandKind::Pass
        | CommandKind::Recent | CommandKind::Best | CommandKind::ScoreOnBeatmap | CommandKind::Highlight
        | CommandKind::BeatmapAudio => true,
        _ => false,
    }
}

/// The handler groups.
#[derive(Debug, Clone, Copy, PartialEq, Eq, Structural)]
pub enum Handler {
    Query,
    Settings,
    Utility,
}

/// The handler of a command.
pub fn handler_of(k: CommandKind) -> (r: Handler)
    ensures
        r == match k {
            CommandKind::SetDefaultMode | CommandKind::Bind | CommandKind::Unbind => Handler::Settings,
            CommandKind::Help | CommandKind::Highlight | CommandKind::ProfileCard | CommandKind::BeatmapPreview => Handler::Utility,
            _ => Handler::Query,
        },
{
    match k {
        CommandKind::SetDefaultMode | CommandKind::Bind | CommandKind::Unbind => Handler::Settings,
        CommandKind::Help | CommandKind::Highlight | CommandKind::ProfileCard | CommandKind::BeatmapPreview => Handler::Utility,
        _ => Handler::Query,
    }
}

/// The mode of a query: the one the command names; else the target user's
/// stored default; else standard (no target, none stored, or a failed read).
pub open spec fn mode_spec<M>(explicit: Option<M>, stored: Option<Lookup<M>>, standard: M) -> M {
    match explicit {
        Some(m) => m,
        None => match stored {
            Some(Lookup::Found(m)) => m,
            _ => standard,
        },
    }
}

/// The mode of a query (see [`mode_spec`]); `stored` is the target user's
/// stored default, `None` when there is no target user.
pub fn resolve_mode<M>(explicit: Option<M>, stored: Option<Lookup<M>>, standard: M) -> (r: M)
    ensures
        r == mode_spec(explicit, stored, standard),
{
    match explicit {
        Some(m) => m,
        None => match stored {
            Some(Lookup::Found(m)) => m,
            _ => standard,
        },
    }
}

/// Whose stored default mode a command reads.
#[derive(Debug, Clone, Copy, PartialEq, Eq, Structural)]
pub enum ModeTarget {
    /// The asker's.
    Asker,
    /// This user's.
    User(i64),
    /// The user bound to the osu! name the command gives, if any.
    Named,
    /// Nobody's: the command does not depend on a mode.
    Nobody,
}

/// Whose default mode a command reads: a self query and a highlight read the
/// asker's, a named query the named player's, a mentioned query the
/// mentioned user's; a score command the user it names by QQ, else by osu!
/// name, else the asker's; any other command nobody's. `qq` is the QQ the
/// command names and `username_given` whether it names an osu! player.
pub open spec fn mode_target_spec(kind: CommandKind, qq: Option<i64>, username_given: bool) -> ModeTarget {
    match kind {
        CommandKind::QuerySelf | CommandKind::Highlight => ModeTarget::Asker,
        CommandKind::QueryUser => ModeTarget::Named,
        CommandKind::QueryMentionedUser => match qq {
            Some(q) => ModeTarget::User(q),
            None => ModeTarget::Nobody,
        },
        CommandKind::Pass | CommandKind::Recent | CommandKind::Best | CommandKind::ScoreOnBeatmap
        | CommandKind::BeatmapAudio => match qq {
            Some(q) => ModeTarget::User(q),
            None => if username_given { ModeTarget::Named } else { ModeTarget::Asker },
        },
        _ => ModeTarget::Nobody,
    }
}

/// Whose default mode a command reads (see [`mode_target_spec`]).
pub fn mode_target(kind: CommandKind, qq: Option<i64>, username_given: bool) -> (r: ModeTarget)
    ensures
        r == mode_target_spec(kind, qq, username_given),
{
    match kind {
        CommandKind::QuerySelf | CommandKind::Highlight => ModeTarget::Asker,
        CommandKind::QueryUser => ModeTarget::Named,
        CommandKind::QueryMentionedUser => match qq {
            Some(q) => ModeTarget::User(q),
            None => ModeTarget::Nobody,
        },
        CommandKind::Pass | CommandKind::Recent | CommandKind::Best | CommandKind::ScoreOnBeatmap
        | CommandKind::BeatmapAudio => match qq {
            Some(q) => ModeTarget::User(q),
            None => if username_given {
                ModeTarget::Named
            } else {
                ModeTarget::Asker
            },
        },
        _ => ModeTarget::Nobody,
    }
}

/// Exactly the commands that depend on a mode read somebody's default.
pub proof fn law_mode_target_iff_sensitive(kind: CommandKind, qq: Option<i64>, username_given: bool)
    requires
        kind != CommandKind::QueryMentionedUser || qq is Some,
    ensures
        (mode_target_spec(kind, qq, username_given) != ModeTarget::Nobody) == mode_sensitive_spec(kind),
{
}

/// The score commands (passes, recents, bests, a score on a beatmap, a
/// beatmap's audio) all pick whose default mode to read the same way: the
/// user they name by QQ, else the player they name by osu! name, else the
/// asker; which of these commands it is never matters.
pub proof fn law_score_commands_mode_target(kind: CommandKind, other: CommandKind, qq: Option<i64>, username_given: bool)
    requires
        kind == CommandKind::Pass || kind == CommandKind::Recent || kind == CommandKind::Best
            || kind == CommandKind::ScoreOnBeatmap || kind == CommandKind::BeatmapAudio,
        other == CommandKind::Pass || other == CommandKind::Recent || other == CommandKind::Best
            || other == CommandKind::ScoreOnBeatmap || other == CommandKind::BeatmapAudio,
    ensures
        qq matches Some(q) ==> mode_target_spec(kind, qq, username_given) == ModeTarget::User(q),
        qq is None && username_given ==> mode_target_spec(kind, qq, username_given) == ModeTarget::Named,
        qq is None && !username_given ==> mode_target_spec(kind, qq, username_given) == ModeTarget::Asker,
        mode_target_spec(kind, qq, username_given) == mode_target_spec(other, qq, username_given),
{
}

/// Whose default mode each other command reads: a self query and a
/// highlight the asker's, a named query the named player's, a mentioned
/// query the mentioned user's (nobody's without one), and the commands that
/// do not depend on a mode nobody's.
pub proof fn law_other_commands_mode_target(qq: Option<i64>, username_given: bool)
    ensures
        mode_target_spec(CommandKind::QuerySelf, qq, username_given) == ModeTarget::Asker,
        mode_target_spec(CommandKind::Highlight, qq, username_given) == ModeTarget::Asker,
        mode_target_spec(CommandKind::QueryUser, qq, username_given) == ModeTarget::Named,
        qq matches Some(q) ==> mode_target_spec(CommandKind::QueryMentionedUser, qq, username_given) == ModeTarget::User(q),
        qq is None ==> mode_target_spec(CommandKind::QueryMentionedUser, qq, username_given) == ModeTarget::Nobody,
        mode_target_spec(CommandKind::TodayBest, qq, username_given) == ModeTarget::Nobody,
        mode_target_spec(CommandKind::BeatmapPreview, qq, username_given) == ModeTarget::Nobody,
        mode_target_spec(CommandKind::SetDefaultMode, qq, username_given) == ModeTarget::Nobody,
        mode_target_spec(CommandKind::Bind, qq, username_given) == ModeTarget::Nobody,
        mode_target_spec(CommandKind::Unbind, qq, username_given) == ModeTarget::Nobody,
        mode_target_spec(CommandKind::Help, qq, username_given) == ModeTarget::Nobody,
        mode_target_spec(CommandKind::ProfileCard, qq, username_given) == ModeTarget::Nobody,
{
}

/// A mode named in the command always wins.
pub proof fn law_explicit_mode_wins<M>(m: M, stored: Option<Lookup<M>>, standard: M)
    ensures
        mode_spec(Some(m), stored, standard) == m,
{
}

/// What a plugin did with a message or command.
#[derive(Debug, Clone, PartialEq, Eq)]
pub enum PluginAction {
    /// Answered it with this text.
    Handled(String),
    /// Swallowed it.
    Intercepted,
    /// Left it to the bot.
    Next,
}

/// What happens to an incoming message.
#[derive(Debug, Clone, PartialEq, Eq)]
pub enum Dispatch {
    /// Send this reply and stop.
    Reply(Reply),
    /// Send this text and stop.
    Text(String),
    /// Stop without an answer.
    Stop,
    /// Run the command's handler.
    Run(Handler),
}

/// The throttle first (a throttled user is told so); then the plugins see
/// the message; then an unparsed message ends; then the plugins see the
/// command; then a command switched off for the group ends; else its
/// handler runs.
pub open spec fn dispatch_spec(throttled: bool, on_message: PluginAction, command: Option<CommandKind>, on_command: PluginAction, enabled: bool, qq: i64) -> (int, Seq<char>, Option<Handler>) {
    if throttled {
        (0, "error.rate_limit_generic"@, None)
    } else {
        match on_message {
            PluginAction::Handled(t) => (1, t@, None),
            PluginAction::Intercepted => (2, Seq::empty(), None),
            PluginAction::Next => match command {
                None => (2, Seq::empty(), None),
                Some(k) => match on_command {
                    PluginAction::Handled(t) => (1, t@, None),
                    PluginAction::Intercepted => (2, Seq::empty(), None),
                    PluginAction::Next => if !enabled {
                        (2, Seq::empty(), None)
                    } else {
                        (3, Seq::empty(), Some(match k {
                            CommandKind::SetDefaultMode | CommandKind::Bind | CommandKind::Unbind => Handler::Settings,
                            CommandKind::Help | CommandKind::Highlight | CommandKind::ProfileCard | CommandKind::BeatmapPreview => Handler::Utility,
                            _ => Handler::Query,
                        }))
                    },
                },
            },
        }
    }
}

/// The view of a dispatch.
pub open spec fn dispatch_view(d: Dispatch) -> (int, Seq<char>, Option<Handler>) {
    match d {
        Dispatch::Reply(r) => (0, reply_view(r).0, None),
        Dispatch::Text(t) => (1, t@, None),
        Dispatch::Stop => (2, Seq::empty(), None),
        Dispatch::Run(h) => (3, Seq::empty(), Some(h)),
    }
}

/// What happens to an incoming message (see [`dispatch_spec`]).
pub fn dispatch(throttled: bool, on_message: PluginAction, command: Option<CommandKind>, on_command: PluginAction, enabled: bool, qq: i64) -> (r: Dispatch)
    ensures
        dispatch_view(r) == dispatch_spec(throttled, on_message, command, on_command, enabled, qq),
        throttled ==> (r matches Dispatch::Reply(m) && reply_view(m) == qq_reply("error.rate_limit_generic"@, qq)),
{
    if throttled {
        return Dispatch::Reply(reply_to("error.rate_limit_generic", qq));
    }
    match on_message {
        PluginAction::Handled(t) => Dispatch::Text(t),
        PluginAction::Intercepted => Dispatch::Stop,
        PluginAction::Next => match command {
            None => Dispatch::Stop,
            Some(k) => match on_command {
                PluginAction::Handled(t) => Dispatch::Text(t),
                PluginAction::Intercepted => Dispatch::Stop,
                PluginAction::Next => if !enabled {
                    Dispatch::Stop
                } else {
                    Dispatch::Run(handler_of(k))
                },
            },
        },
    }
}

/// A throttled user gets no handler and no plugin answer, whatever the message.
pub proof fn law_throttle_comes_first(on_message: PluginAction, command: Option<CommandKind>, on_command: PluginAction, enabled: bool, qq: i64)
    ensures
        dispatch_spec(true, on_message, command, on_command, enabled, qq).0 == 0,
        dispatch_spec(true, on_message, command, on_command, enabled, qq).2 is None,
{
}

/// The IRC sender verifies a binding when its nickname is the target
/// osu! name with spaces written as underscores, compared in lower case.
pub open spec fn irc_sender_matches_spec(sender: Seq<char>, target: Seq<char>) -> bool {
    lowercase(sender) == lowercase(replace_spec(target, " "@, "_"@))
}

/// Whether the IRC sender is the user being bound (see [`irc_sender_matches_spec`]).
pub fn irc_sender_matches(sender: &str, target: &str) -> (r: bool)
    ensures
        r == irc_sender_matches_spec(sender@, target@),
{
    proof {
        reveal_strlit(" ");
    }
    let underscored = string_of(&replace_all(&chars_of(target), &chars_of(" "), &chars_of("_")));
    let a = to_lowercase(sender);
    let b = to_lowercase(underscored.as_str());
    chars_eq(&chars_of(a.as_str()), &chars_of(b.as_str()))
}

/// What an IRC verification message leads to, before the osu! lookup: an
/// unknown code or a failed read is ignored; a sender that is not the user
/// being bound cancels the verification (`true`: the pending bind is
/// removed) and the group is told; otherwise the user is looked up.
pub fn irc_after_pending(sender_matches: bool, pending_qq: i64) -> (r: Step<()>)
    ensures
        sender_matches ==> r == Step::<()>::Ask(()),
        !sender_matches ==> replies(r, "bind.wrong_person"@, qq_reply("bind.wrong_person"@, pending_qq).1),
{
    if sender_matches {
        Step::Ask(())
    } else {
        Step::Reply(reply_to("bind.wrong_person", pending_qq))
    }
}

/// The answer to an IRC verification once the osu! user was looked up and,
/// when found, the binding stored: success names the user; an account bound
/// to someone else, an unknown user and failures are reported. The pending
/// bind is removed in every case.
pub fn irc_result(lookup: Result<Option<String>, ()>, stored: Result<Result<(), i64>, ()>, pending_qq: i64) -> (r: Reply)
    ensures
        match lookup {
            Ok(Some(name)) => match stored {
                Ok(Ok(())) => reply_view(r) == qq_and("bind.success"@, pending_qq, "{name}"@, name@),
                Ok(Err(_)) => reply_view(r) == qq_reply("bind.irc_already_bound_other"@, pending_qq),
                Err(()) => reply_view(r) == qq_reply("bind.failed_retry"@, pending_qq),
            },
            Ok(None) => reply_view(r) == qq_reply("bind.irc_user_not_found"@, pending_qq),
            Err(()) => reply_view(r) == qq_reply("bind.failed_retry"@, pending_qq),
        },
{
    match lookup {
        Ok(Some(name)) => match stored {
            Ok(Ok(())) => {
                let r = reply_to("bind.success", pending_qq);
                let out = with_sub(r, "{name}", name);
                proof {
                    assert(reply_view(out).1 =~= qq_and("bind.success"@, pending_qq, "{name}"@, name@).1);
                }
                out
            },
            Ok(Err(_)) => reply_to("bind.irc_already_bound_other", pending_qq),
            Err(()) => reply_to("bind.failed_retry", pending_qq),
        },
        Ok(None) => reply_to("bind.irc_user_not_found", pending_qq),
        Err(()) => reply_to("bind.failed_retry", pending_qq),
    }
}

} // verus!
