//! The decisions of the chat commands that talk to storage and the osu! API:
//! each step takes what the last request returned and says what to send or
//! what to ask next. The requests themselves are the caller's.

use vstd::prelude::*;
use crate::reply::{Reply, DedupApiError, reply_to, reply_view, with_sub, qq_reply, api_error_reply};
use crate::text::{chars_of, dec_digits, int_to_dec, string_of, i64_chars};

verus! {

/// What a storage read returned.
#[derive(Debug, Clone, PartialEq, Eq)]
pub enum Lookup<T> {
    Found(T),
    Missing,
    Failed,
}

/// The next step of a command: a reply that ends it, or a request.
#[derive(Debug, Clone, PartialEq, Eq)]
pub enum Step<R> {
    Reply(Reply),
    Ask(R),
}

/// The view of a step that ends in a reply.
pub open spec fn replies<R>(s: Step<R>, key: Seq<char>, subs: Seq<(Seq<char>, Seq<char>)>) -> bool {
    s matches Step::Reply(r) && reply_view(r) == (key, subs)
}

/// The reply `key` with `{qq}` and one more placeholder.
pub open spec fn qq_and(key: Seq<char>, qq: i64, name: Seq<char>, value: Seq<char>) -> (Seq<char>, Seq<(Seq<char>, Seq<char>)>) {
    (key, seq![("{qq}"@, int_to_dec(qq as int)), (name, value)])
}

fn reply_with(key: &'static str, qq: i64, name: &'static str, value: String) -> (r: Reply)
    ensures
        reply_view(r) == qq_and(key@, qq, name@, value@),
{
    let r = reply_to(key, qq);
    let out = with_sub(r, name, value);
    proof {
        assert(reply_view(out).1 =~= seq![("{qq}"@, int_to_dec(qq as int)), (name@, value@)]);
    }
    out
}

// ---------------------------------------------------------------------------
// Binding an osu! account
// ---------------------------------------------------------------------------

/// The requests of the bind command.
#[derive(Debug, Clone, PartialEq, Eq)]
pub enum BindRequest {
    /// Ask whether the user already has a verification pending.
    CheckPending,
    /// Create a verification code, to be sent through IRC.
    CreatePending,
    /// Look the osu! user up.
    LookupUser,
}

/// After reading the user's binding: an existing binding is reported with
/// its name; without one, IRC verification is used when IRC is on, else
/// the osu! user is looked up; a failed read is a database error.
pub fn bind_after_binding(existing: Lookup<(i64, String)>, qq: i64, irc_enabled: bool) -> (r: Step<BindRequest>)
    ensures
        match existing {
            Lookup::Found((_, name)) => replies(r, "bind.already_bound"@, seq![("{qq}"@, int_to_dec(qq as int)), ("{name}"@, name@)]),
            Lookup::Missing => r == (if irc_enabled { Step::Ask(BindRequest::CheckPending) } else { Step::Ask(BindRequest::LookupUser) }),
            Lookup::Failed => replies(r, "error.db_error"@, qq_reply("error.db_error"@, qq).1),
        },
{
    match existing {
        Lookup::Found((_, name)) => Step::Reply(reply_with("bind.already_bound", qq, "{name}", name)),
        Lookup::Missing => if irc_enabled {
            Step::Ask(BindRequest::CheckPending)
        } else {
            Step::Ask(BindRequest::LookupUser)
        },
        Lookup::Failed => Step::Reply(reply_to("error.db_error", qq)),
    }
}

/// After asking for a pending verification: one pending is reported, a
/// failed check asks to retry, none goes on to create one.
pub fn bind_after_pending_check(pending: Result<bool, ()>, qq: i64) -> (r: Step<BindRequest>)
    ensures
        match pending {
            Ok(true) => replies(r, "bind.pending_exists"@, qq_reply("bind.pending_exists"@, qq).1),
            Ok(false) => r == Step::Ask(BindRequest::CreatePending),
            Err(()) => replies(r, "bind.failed_retry"@, qq_reply("bind.failed_retry"@, qq).1),
        },
{
    match pending {
        Ok(true) => Step::Reply(reply_to("bind.pending_exists", qq)),
        Ok(false) => Step::Ask(BindRequest::CreatePending),
        Err(()) => Step::Reply(reply_to("bind.failed_retry", qq)),
    }
}

/// After creating a verification: the code and the IRC nickname to send it
/// to, or a request to retry.
pub fn bind_after_pending_created(code: Result<String, ()>, qq: i64, nickname: String) -> (r: Reply)
    ensures
        match code {
            Ok(c) => reply_view(r) == ("bind.code_sent"@, seq![("{qq}"@, int_to_dec(qq as int)), ("{code}"@, c@), ("{target}"@, nickname@)]),
            Err(()) => reply_view(r) == qq_reply("bind.failed_retry"@, qq),
        },
{
    match code {
        Ok(c) => {
            let r = reply_with("bind.code_sent", qq, "{code}", c);
            let out = with_sub(r, "{target}", nickname);
            proof {
                assert(reply_view(out).1 =~= seq![("{qq}"@, int_to_dec(qq as int)), ("{code}"@, c@), ("{target}"@, nickname@)]);
            }
            out
        },
        Err(()) => reply_to("bind.failed_retry", qq),
    }
}

/// After looking the osu! user up: a user found is to be stored (its id and
/// name); an unknown user is reported; an API error gets its message.
pub open spec fn bind_lookup_spec(info: Result<Option<(i64, Seq<char>)>, DedupApiError>, qq: i64) -> (int, Seq<char>, Seq<(Seq<char>, Seq<char>)>) {
    match info {
        Ok(Some((id, name))) => (0, name, seq![]),
        Ok(None) => (1, "bind.user_not_found"@, qq_reply("bind.user_not_found"@, qq).1),
        Err(e) => (1, api_error_reply(e, qq).0, api_error_reply(e, qq).1),
    }
}

/// What the bind command does once the user was looked up.
#[derive(Debug, Clone, PartialEq, Eq)]
pub enum BindStore {
    /// Store the binding of this osu! user.
    Store { user_id: i64, username: String },
    Reply(Reply),
}

/// After looking the osu! user up (see [`bind_lookup_spec`]).
pub fn bind_after_lookup(info: Result<Option<(i64, String)>, DedupApiError>, qq: i64) -> (r: BindStore)
    ensures
        match info {
            Ok(Some((id, name))) => r == BindStore::Store { user_id: id, username: name },
            Ok(None) => r matches BindStore::Reply(m) && reply_view(m) == qq_reply("bind.user_not_found"@, qq),
            Err(e) => r matches BindStore::Reply(m) && reply_view(m) == api_error_reply(e, qq),
        },
{
    match info {
        Ok(Some((id, name))) => BindStore::Store { user_id: id, username: name },
        Ok(None) => BindStore::Reply(reply_to("bind.user_not_found", qq)),
        Err(e) => BindStore::Reply(e.to_user_msg(qq)),
    }
}

/// After storing a binding: success names the osu! user; an osu! account
/// bound to someone else is refused; a failure asks to retry.
pub fn bind_after_store(result: Result<Result<(), i64>, ()>, qq: i64, username: String) -> (r: Reply)
    ensures
        match result {
            Ok(Ok(())) => reply_view(r) == qq_and("bind.success"@, qq, "{name}"@, username@),
            Ok(Err(_)) => reply_view(r) == qq_reply("bind.already_bound_other"@, qq),
            Err(()) => reply_view(r) == qq_reply("bind.failed_retry"@, qq),
        },
{
    match result {
        Ok(Ok(())) => reply_with("bind.success", qq, "{name}", username),
        Ok(Err(_)) => reply_to("bind.already_bound_other", qq),
        Err(()) => reply_to("bind.failed_retry", qq),
    }
}

// ---------------------------------------------------------------------------
// Unbinding
// ---------------------------------------------------------------------------

/// The requests of the unbind command.
#[derive(Debug, Clone, PartialEq, Eq)]
pub enum UnbindRequest {
    /// The user confirmed: remove the binding.
    Unbind,
    /// Read the binding, to ask for confirmation.
    ReadBinding,
}

/// After reading a pending unbind: a confirmed unbind goes ahead; without
/// one the binding is read; a failed read is a database error.
pub fn unbind_after_pending(pending: Lookup<()>, qq: i64) -> (r: Step<UnbindRequest>)
    ensures
        match pending {
            Lookup::Found(()) => r == Step::Ask(UnbindRequest::Unbind),
            Lookup::Missing => r == Step::Ask(UnbindRequest::ReadBinding),
            Lookup::Failed => replies(r, "error.db_error"@, qq_reply("error.db_error"@, qq).1),
        },
{
    match pending {
        Lookup::Found(()) => Step::Ask(UnbindRequest::Unbind),
        Lookup::Missing => Step::Ask(UnbindRequest::ReadBinding),
        Lookup::Failed => Step::Reply(reply_to("error.db_error", qq)),
    }
}

/// After removing the binding: the reply for success or failure, and
/// whether the pending unbind is to be cleared, which is exactly on success
/// (after a failure the confirmation stays, and the next unbind tries again).
/// `sb` selects the ppy.sb messages.
pub fn unbind_after_remove(ok: bool, qq: i64, sb: bool) -> (r: (Reply, bool))
    ensures
        r.1 == ok,
        reply_view(r.0) == qq_reply(
            if sb {
                if ok { "sb.unbind.success"@ } else { "error.db_error"@ }
            } else {
                if ok { "bind.unbind_success"@ } else { "bind.unbind_failed"@ }
            },
            qq,
        ),
{
    let reply = if sb {
        if ok {
            reply_to("sb.unbind.success", qq)
        } else {
            reply_to("error.db_error", qq)
        }
    } else {
        if ok {
            reply_to("bind.unbind_success", qq)
        } else {
            reply_to("bind.unbind_failed", qq)
        }
    };
    (reply, ok)
}

/// After reading the binding to unbind: a binding asks for confirmation (and
/// a pending unbind is to be recorded); none is reported; a failed read is a
/// database error. `sb` selects the ppy.sb messages.
pub fn unbind_after_binding(binding: Lookup<String>, qq: i64, sb: bool) -> (r: (Reply, bool))
    ensures
        r.1 == (binding is Found),
        match binding {
            Lookup::Found(name) => if sb {
                reply_view(r.0) == qq_reply("sb.unbind.prompt"@, qq)
            } else {
                reply_view(r.0) == qq_and("bind.confirm_unbind"@, qq, "{name}"@, name@)
            },
            Lookup::Missing => reply_view(r.0) == qq_reply(if sb { "sb.unbind.not_bound"@ } else { "bind.not_bound_any"@ }, qq),
            Lookup::Failed => reply_view(r.0) == qq_reply("error.db_error"@, qq),
        },
{
    match binding {
        Lookup::Found(name) => if sb {
            (reply_to("sb.unbind.prompt", qq), true)
        } else {
            (reply_with("bind.confirm_unbind", qq, "{name}", name), true)
        },
        Lookup::Missing => if sb {
            (reply_to("sb.unbind.not_bound", qq), false)
        } else {
            (reply_to("bind.not_bound_any", qq), false)
        },
        Lookup::Failed => (reply_to("error.db_error", qq), false),
    }
}

// ---------------------------------------------------------------------------
// The default mode
// ---------------------------------------------------------------------------

/// The requests of the mode command.
#[derive(Debug, Clone, PartialEq, Eq)]
pub enum ModeRequest {
    /// Store the new default mode.
    Store,
    /// Read the binding, then the default mode.
    ReadBinding,
}

/// The mode command on the official server: a ppy.sb-only mode is refused;
/// a mode is stored; without one, the current default is read.
pub fn mode_start(mode_given: bool, sb_specific: bool, qq: i64) -> (r: Step<ModeRequest>)
    ensures
        mode_given && !sb_specific ==> r == Step::Ask(ModeRequest::Store),
        !mode_given ==> r == Step::Ask(ModeRequest::ReadBinding),
        mode_given && sb_specific ==> replies(r, "mode.sb_mode_on_official"@, qq_reply("mode.sb_mode_on_official"@, qq).1),
{
    if mode_given && sb_specific {
        Step::Reply(reply_to("mode.sb_mode_on_official", qq))
    } else if mode_given {
        Step::Ask(ModeRequest::Store)
    } else {
        Step::Ask(ModeRequest::ReadBinding)
    }
}

/// After storing the default mode: `Ok(true)` names the mode, `Ok(false)`
/// means the user is not bound; a failure is a database error. `sb`
/// selects the ppy.sb messages and placeholder.
pub fn mode_after_store(stored: Result<bool, ()>, qq: i64, mode_name: String, sb: bool) -> (r: Reply)
    ensures
        match stored {
            Ok(true) => if sb {
                reply_view(r) == qq_and("sb.mode.set"@, qq, "{mode_name}"@, mode_name@)
            } else {
                reply_view(r) == qq_and("mode.set_success"@, qq, "{mode}"@, mode_name@)
            },
            Ok(false) => reply_view(r) == qq_reply(if sb { "sb.mode.not_bound"@ } else { "mode.not_bound"@ }, qq),
            Err(()) => reply_view(r) == qq_reply("error.db_error"@, qq),
        },
{
    match stored {
        Ok(true) => if sb {
            reply_with("sb.mode.set", qq, "{mode_name}", mode_name)
        } else {
            reply_with("mode.set_success", qq, "{mode}", mode_name)
        },
        Ok(false) => if sb {
            reply_to("sb.mode.not_bound", qq)
        } else {
            reply_to("mode.not_bound", qq)
        },
        Err(()) => reply_to("error.db_error", qq),
    }
}

/// After reading the binding for the mode query: a bound user's default mode
/// is read next; otherwise the user is not bound or the read failed.
pub fn mode_after_binding(bound: Lookup<()>, qq: i64, sb: bool) -> (r: Step<()>)
    ensures
        match bound {
            Lookup::Found(()) => r == Step::<()>::Ask(()),
            Lookup::Missing => replies(r, if sb { "sb.mode.not_bound"@ } else { "bind.not_bound"@ },
                qq_reply(if sb { "sb.mode.not_bound"@ } else { "bind.not_bound"@ }, qq).1),
            Lookup::Failed => replies(r, "error.db_error"@, qq_reply("error.db_error"@, qq).1),
        },
{
    match bound {
        Lookup::Found(()) => Step::Ask(()),
        Lookup::Missing => if sb {
            Step::Reply(reply_to("sb.mode.not_bound", qq))
        } else {
            Step::Reply(reply_to("bind.not_bound", qq))
        },
        Lookup::Failed => Step::Reply(reply_to("error.db_error", qq)),
    }
}

/// The mode query on the official server: the stored default mode's name,
/// or the standard mode's when none is stored.
pub fn mode_after_read(current: Lookup<String>, qq: i64, standard_name: String) -> (r: Reply)
    ensures
        match current {
            Lookup::Found(name) => reply_view(r) == qq_and("mode.get_success"@, qq, "{mode}"@, name@),
            Lookup::Missing => reply_view(r) == qq_and("mode.get_success"@, qq, "{mode}"@, standard_name@),
            Lookup::Failed => reply_view(r) == qq_reply("error.db_error"@, qq),
        },
{
    match current {
        Lookup::Found(name) => reply_with("mode.get_success", qq, "{mode}", name),
        Lookup::Missing => reply_with("mode.get_success", qq, "{mode}", standard_name),
        Lookup::Failed => reply_to("error.db_error", qq),
    }
}

/// The mode query on ppy.sb: the stored mode number and its name (`0` and
/// the standard name when none is stored).
pub fn sb_mode_after_read(current: Lookup<(u8, String)>, qq: i64, standard_name: String) -> (r: Reply)
    ensures
        match current {
            Lookup::Found((n, name)) => reply_view(r) == ("sb.mode.get"@, seq![("{qq}"@, int_to_dec(qq as int)), ("{mode}"@, dec_digits(n as nat)), ("{mode_name}"@, name@)]),
            Lookup::Missing => reply_view(r) == ("sb.mode.get"@, seq![("{qq}"@, int_to_dec(qq as int)), ("{mode}"@, seq!['0']), ("{mode_name}"@, standard_name@)]),
            Lookup::Failed => reply_view(r) == qq_reply("error.db_error"@, qq),
        },
{
    match current {
        Lookup::Found((n, name)) => {
            let r = reply_with("sb.mode.get", qq, "{mode}", string_of(&crate::text::u64_digits(n as u64)));
            let out = with_sub(r, "{mode_name}", name);
            proof {
                assert(reply_view(out).1 =~= seq![("{qq}"@, int_to_dec(qq as int)), ("{mode}"@, dec_digits(n as nat)), ("{mode_name}"@, name@)]);
            }
            out
        },
        Lookup::Missing => {
            proof {
                reveal_strlit("0");
            }
            let zero = string_of(&chars_of("0"));
            assert(zero@ == seq!['0']);
            let r = reply_with("sb.mode.get", qq, "{mode}", zero);
            let out = with_sub(r, "{mode_name}", standard_name);
            proof {
                assert(reply_view(out).1 =~= seq![("{qq}"@, int_to_dec(qq as int)), ("{mode}"@, seq!['0']), ("{mode_name}"@, standard_name@)]);
            }
            out
        },
        Lookup::Failed => reply_to("error.db_error", qq),
    }
}

// ---------------------------------------------------------------------------
// ppy.sb binding
// ---------------------------------------------------------------------------

/// Binding on ppy.sb when IRC is on and an official binding is required:
/// without one the user is asked to bind officially first; a failed read
/// is a database error; otherwise the player is searched.
pub fn sb_bind_start(require_official: bool, official: Lookup<()>, qq: i64) -> (r: Step<()>)
    ensures
        !require_official ==> r == Step::<()>::Ask(()),
        require_official ==> match official {
            Lookup::Found(()) => r == Step::<()>::Ask(()),
            Lookup::Missing => replies(r, "sb.bind.require_official"@, qq_reply("sb.bind.require_official"@, qq).1),
            Lookup::Failed => replies(r, "error.db_error"@, qq_reply("error.db_error"@, qq).1),
        },
{
    if !require_official {
        return Step::Ask(());
    }
    match official {
        Lookup::Found(()) => Step::Ask(()),
        Lookup::Missing => Step::Reply(reply_to("sb.bind.require_official", qq)),
        Lookup::Failed => Step::Reply(reply_to("error.db_error", qq)),
    }
}

/// After searching ppy.sb: the first player found is bound; none found is
/// reported with the name searched; a failed search is an internal error.
pub fn sb_bind_after_search(first: Result<Option<(i64, String)>, ()>, qq: i64, searched: String) -> (r: Step<(i64, String)>)
    ensures
        match first {
            Ok(Some(p)) => r == Step::Ask(p),
            Ok(None) => replies(r, "sb.bind.not_found"@, seq![("{qq}"@, int_to_dec(qq as int)), ("{username}"@, searched@)]),
            Err(()) => replies(r, "error.internal"@, qq_reply("error.internal"@, qq).1),
        },
{
    match first {
        Ok(Some(p)) => Step::Ask(p),
        Ok(None) => Step::Reply(reply_with("sb.bind.not_found", qq, "{username}", searched)),
        Err(()) => Step::Reply(reply_to("error.internal", qq)),
    }
}

/// After storing a ppy.sb binding: success names the player and id; a
/// player bound already is reported as bound to this user or to another;
/// a failure is a database error.
pub fn sb_bind_after_store(result: Result<Result<(), i64>, ()>, qq: i64, name: String, id: i64) -> (r: Reply)
    ensures
        match result {
            Ok(Ok(())) => reply_view(r) == ("sb.bind.success"@, seq![("{qq}"@, int_to_dec(qq as int)), ("{username}"@, name@), ("{id}"@, int_to_dec(id as int))]),
            Ok(Err(owner)) => reply_view(r) == qq_reply(if owner == qq { "sb.bind.already_self"@ } else { "sb.bind.already_other"@ }, qq),
            Err(()) => reply_view(r) == qq_reply("error.db_error"@, qq),
        },
{
    match result {
        Ok(Ok(())) => {
            let r = reply_with("sb.bind.success", qq, "{username}", name);
            let out = with_sub(r, "{id}", string_of(&i64_chars(id)));
            proof {
                assert(reply_view(out).1 =~= seq![("{qq}"@, int_to_dec(qq as int)), ("{username}"@, name@), ("{id}"@, int_to_dec(id as int))]);
            }
            out
        },
        Ok(Err(owner)) => if owner == qq {
            reply_to("sb.bind.already_self", qq)
        } else {
            reply_to("sb.bind.already_other", qq)
        },
        Err(()) => reply_to("error.db_error", qq),
    }
}

// ---------------------------------------------------------------------------
// Finding whose account a query is about
// ---------------------------------------------------------------------------

/// Where a query's osu! account comes from.
#[derive(Debug, Clone, PartialEq, Eq)]
pub enum AccountStep {
    /// This account.
    Use(i64, String),
    /// Ask the upstream binding bots.
    AskUpstream,
    Reply(Reply),
}

/// After reading the stored binding of the user a query is about: a stored
/// binding is used; none asks the upstream bots; a failed read is a
/// database error.
pub fn account_after_storage(stored: Lookup<(i64, String)>, asker: i64) -> (r: AccountStep)
    ensures
        match stored {
            Lookup::Found((id, name)) => r == AccountStep::Use(id, name),
            Lookup::Missing => r == AccountStep::AskUpstream,
            Lookup::Failed => r matches AccountStep::Reply(m) && reply_view(m) == qq_reply("error.db_error"@, asker),
        },
{
    match stored {
        Lookup::Found((id, name)) => AccountStep::Use(id, name),
        Lookup::Missing => AccountStep::AskUpstream,
        Lookup::Failed => AccountStep::Reply(reply_to("error.db_error", asker)),
    }
}

/// Whose account a query names when it is not the asker's own.
#[derive(Debug, Clone, Copy, PartialEq, Eq, Structural)]
pub enum Whose {
    /// The asker's own (`!p`).
    Own,
    /// A mentioned user's.
    Mentioned,
    /// The asker's own, for a profile card.
    OwnProfile,
}

/// The key reported when nobody has bound the account a query is about.
pub open spec fn not_bound_key(w: Whose) -> Seq<char> {
    match w {
        Whose::Own => "bind.not_bound"@,
        Whose::Mentioned => "bind.mentioned_not_bound"@,
        Whose::OwnProfile => "query.profile_not_bound"@,
    }
}

/// After asking the upstream bots: a binding they know is used; else the
/// account is not bound.
pub fn account_after_upstream(found: Option<(i64, String)>, asker: i64, whose: Whose) -> (r: AccountStep)
    ensures
        match found {
            Some((id, name)) => r == AccountStep::Use(id, name),
            None => r matches AccountStep::Reply(m) && reply_view(m) == qq_reply(not_bound_key(whose), asker),
        },
{
    match found {
        Some((id, name)) => AccountStep::Use(id, name),
        None => {
            let key = match whose {
                Whose::Own => "bind.not_bound",
                Whose::Mentioned => "bind.mentioned_not_bound",
                Whose::OwnProfile => "query.profile_not_bound",
            };
            AccountStep::Reply(reply_to(key, asker))
        },
    }
}

/// Whether an upstream lookup is made for a binding read: only when the
/// read succeeded and found nothing (a failed read gives up).
pub fn consult_upstream(stored: &Lookup<(i64, String)>) -> (r: bool)
    ensures
        r == (*stored is Missing),
{
    match stored {
        Lookup::Missing => true,
        _ => false,
    }
}

// ---------------------------------------------------------------------------
// The help, highlight and profile commands
// ---------------------------------------------------------------------------

/// The help text of a server.
pub fn help_key(sb: bool) -> (r: &'static str)
    ensures
        r@ == (if sb { "sys.help_ppy_sb"@ } else { "sys.help"@ }),
{
    if sb {
        "sys.help_ppy_sb"
    } else {
        "sys.help"
    }
}

/// The bound users that are members of the group, in order.
pub open spec fn members_bound(bindings: Seq<(i64, i64, String)>, members: Seq<i64>) -> Seq<(i64, i64, String)>
    decreases bindings.len(),
{
    if bindings.len() == 0 {
        Seq::empty()
    } else {
        members_bound(bindings.drop_last(), members) + if members.contains(bindings.last().0) {
            seq![bindings.last()]
        } else {
            Seq::empty()
        }
    }
}

/// The highlight command keeps the bindings of the group's members.
pub fn group_bindings(bindings: Vec<(i64, i64, String)>, members: &Vec<i64>) -> (r: Vec<(i64, i64, String)>)
    ensures
        r@ == members_bound(bindings@, members@),
{
    let n = bindings.len();
    let ghost all = bindings@;
    let mut rest = bindings;
    let mut out: Vec<(i64, i64, String)> = Vec::new();
    let mut i: usize = 0;
    while rest.len() > 0
        invariant
            i + rest@.len() == all.len(),
            all.len() <= usize::MAX,
            rest@ == all.skip(i as int),
            out@ == members_bound(all.take(i as int), members@),
        decreases rest.len(),
    {
        let b = rest.remove(0);
        proof {
            assert(all.take(i as int + 1).drop_last() =~= all.take(i as int));
            assert(all.take(i as int + 1).last() == all[i as int]);
            assert(b == all[i as int]);
            assert(rest@ =~= all.skip(i as int + 1));
        }
        let mut member = false;
        let mut k: usize = 0;
        while k < members.len()
            invariant
                k <= members@.len(),
                member == (exists|j: int| 0 <= j < k && members@[j] == b.0),
            decreases members.len() - k,
        {
            if members[k] == b.0 {
                member = true;
            }
            k = k + 1;
        }
        proof {
            if members@.contains(b.0) {
                let j = choose|j: int| 0 <= j < members@.len() && members@[j] == b.0;
                assert(j < k);
            }
        }
        if member {
            out.push(b);
        }
        i = i + 1;
    }
    proof {
        assert(all.take(all.len() as int) =~= all);
    }
    out
}

/// The highlight command: refused in private chat; a failed member list or
/// binding read is reported; a group without bound members is reported;
/// otherwise the highlight is fetched.
pub fn highlight_start(in_group: bool, members_ok: bool, bindings_ok: bool, any_bound: bool, qq: i64) -> (r: Step<()>)
    ensures
        !in_group ==> replies(r, "highlight.not_supported_in_private"@, qq_reply("highlight.not_supported_in_private"@, qq).1),
        in_group && !members_ok ==> replies(r, "error.get_group_members"@, qq_reply("error.get_group_members"@, qq).1),
        in_group && members_ok && !bindings_ok ==> replies(r, "error.db_error"@, qq_reply("error.db_error"@, qq).1),
        in_group && members_ok && bindings_ok && !any_bound ==> replies(r, "query.no_bound_users"@, qq_reply("query.no_bound_users"@, qq).1),
        in_group && members_ok && bindings_ok && any_bound ==> r == Step::<()>::Ask(()),
{
    if !in_group {
        Step::Reply(reply_to("highlight.not_supported_in_private", qq))
    } else if !members_ok {
        Step::Reply(reply_to("error.get_group_members", qq))
    } else if !bindings_ok {
        Step::Reply(reply_to("error.db_error", qq))
    } else if !any_bound {
        Step::Reply(reply_to("query.no_bound_users", qq))
    } else {
        Step::Ask(())
    }
}

/// Where a profile card's account comes from.
#[derive(Debug, Clone, Copy, PartialEq, Eq, Structural)]
pub enum ProfileSource {
    /// Look the name up (in the id cache, then the API).
    ByName,
    /// The mentioned user's binding.
    Mentioned(i64),
    /// The asker's binding.
    Own,
}

/// A profile card names a player, else a mentioned user, else the asker.
pub fn profile_source(username_given: bool, mentioned: Option<i64>) -> (r: ProfileSource)
    ensures
        r == (if username_given {
            ProfileSource::ByName
        } else {
            match mentioned {
                Some(q) => ProfileSource::Mentioned(q),
                None => ProfileSource::Own,
            }
        }),
{
    if username_given {
        ProfileSource::ByName
    } else {
        match mentioned {
            Some(q) => ProfileSource::Mentioned(q),
            None => ProfileSource::Own,
        }
    }
}

} // verus!
