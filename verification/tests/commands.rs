use osubot::dispatch::{
    dispatch, handler_of, irc_after_pending, irc_result, irc_sender_matches, mode_sensitive, mode_target, resolve_mode,
    CommandKind, Dispatch, Handler, ModeTarget, PluginAction,
};
use osubot::flows::{
    account_after_storage, account_after_upstream, bind_after_binding, bind_after_lookup, bind_after_pending_check,
    bind_after_pending_created, bind_after_store, consult_upstream, group_bindings, help_key, highlight_start,
    mode_after_read, mode_start, profile_source, sb_bind_after_store, sb_mode_after_read, unbind_after_binding,
    unbind_after_pending, unbind_after_remove, AccountStep, BindRequest, BindStore, Lookup, ModeRequest,
    ProfileSource, Step, UnbindRequest, Whose,
};
use osubot::reply::{fill_template, reply_to, with_sub, DedupApiError, Reply};

fn subs(r: &Reply) -> Vec<(&str, &str)> {
    r.subs.iter().map(|(k, v)| (*k, v.as_str())).collect()
}

fn step_key<R>(s: &Step<R>) -> Option<&'static str> {
    match s {
        Step::Reply(r) => Some(r.key),
        Step::Ask(_) => None,
    }
}

// ---- replies ----

#[test]
fn templates_fill_every_placeholder_in_turn() {
    let r = with_sub(reply_to("k", 42), "{name}", "Alpha".to_string());
    assert_eq!(fill_template("[CQ:at,qq={qq}] {name}, {name}!", &r.subs), "[CQ:at,qq=42] Alpha, Alpha!");
    assert_eq!(fill_template("{qq}", &reply_to("k", -7).subs), "-7");
    let chained = vec![("{a}", "{b}".to_string()), ("{b}", "x".to_string())];
    assert_eq!(fill_template("{a}{b}", &chained), "xx");
}

#[test]
fn api_errors_name_the_user() {
    let r = DedupApiError::NotFound.to_user_msg(5);
    assert_eq!(subs(&r), vec![("{qq}", "5")]);
    let wait = DedupApiError::RateLimitedWithRetryAfter(Some(30)).to_user_msg(5);
    assert!(subs(&wait).contains(&("{secs}", "30")));
    assert!(subs(&wait).contains(&("{qq}", "5")));
}

// ---- dispatch ----

#[test]
fn throttle_comes_first() {
    let d = dispatch(true, PluginAction::Handled("hi".into()), Some(CommandKind::Bind), PluginAction::Next, true, 9);
    match d {
        Dispatch::Reply(r) => {
            assert_eq!(r.key, "error.rate_limit_generic");
            assert_eq!(subs(&r), vec![("{qq}", "9")]);
        }
        other => panic!("unexpected {:?}", other),
    }
}

#[test]
fn plugins_then_switches_then_handlers() {
    assert_eq!(
        dispatch(false, PluginAction::Handled("p".into()), None, PluginAction::Next, true, 1),
        Dispatch::Text("p".into())
    );
    assert_eq!(dispatch(false, PluginAction::Intercepted, Some(CommandKind::Help), PluginAction::Next, true, 1), Dispatch::Stop);
    assert_eq!(dispatch(false, PluginAction::Next, None, PluginAction::Next, true, 1), Dispatch::Stop);
    assert_eq!(
        dispatch(false, PluginAction::Next, Some(CommandKind::Help), PluginAction::Handled("c".into()), true, 1),
        Dispatch::Text("c".into())
    );
    assert_eq!(dispatch(false, PluginAction::Next, Some(CommandKind::Help), PluginAction::Next, false, 1), Dispatch::Stop);
    assert_eq!(
        dispatch(false, PluginAction::Next, Some(CommandKind::Bind), PluginAction::Next, true, 1),
        Dispatch::Run(Handler::Settings)
    );
    assert_eq!(handler_of(CommandKind::BeatmapPreview), Handler::Utility);
    assert_eq!(handler_of(CommandKind::Recent), Handler::Query);
    assert!(mode_sensitive(CommandKind::BeatmapAudio));
    assert!(!mode_sensitive(CommandKind::TodayBest));
}

#[test]
fn explicit_mode_wins() {
    assert_eq!(resolve_mode(Some(2), Some(Lookup::Found(3)), 0), 2);
    assert_eq!(resolve_mode(None, Some(Lookup::Found(3)), 0), 3);
    assert_eq!(resolve_mode(None, Some(Lookup::Failed), 0), 0);
    assert_eq!(resolve_mode::<u8>(None, None, 0), 0);
}

#[test]
fn whose_default_mode_is_read() {
    assert_eq!(mode_target(CommandKind::QuerySelf, None, false), ModeTarget::Asker);
    assert_eq!(mode_target(CommandKind::QueryUser, None, true), ModeTarget::Named);
    assert_eq!(mode_target(CommandKind::QueryMentionedUser, Some(5), false), ModeTarget::User(5));
    assert_eq!(mode_target(CommandKind::Recent, Some(5), true), ModeTarget::User(5));
    assert_eq!(mode_target(CommandKind::Recent, None, true), ModeTarget::Named);
    assert_eq!(mode_target(CommandKind::Best, None, false), ModeTarget::Asker);
    assert_eq!(mode_target(CommandKind::Highlight, None, false), ModeTarget::Asker);
    assert_eq!(mode_target(CommandKind::Bind, Some(5), true), ModeTarget::Nobody);
    assert_eq!(mode_target(CommandKind::TodayBest, None, false), ModeTarget::Nobody);
}

#[test]
fn irc_verification() {
    assert!(irc_sender_matches("Some_Player", "some player"));
    assert!(!irc_sender_matches("Other", "some player"));
    assert_eq!(irc_after_pending(true, 1), Step::Ask(()));
    assert_eq!(step_key(&irc_after_pending(false, 1)), Some("bind.wrong_person"));
    assert_eq!(irc_result(Ok(Some("Alpha".into())), Ok(Ok(())), 3).key, "bind.success");
    assert_eq!(irc_result(Ok(Some("Alpha".into())), Ok(Err(4)), 3).key, "bind.irc_already_bound_other");
    assert_eq!(irc_result(Ok(None), Err(()), 3).key, "bind.irc_user_not_found");
    assert_eq!(irc_result(Err(()), Ok(Ok(())), 3).key, "bind.failed_retry");
}

// ---- command flows ----

#[test]
fn bind_flow() {
    let found = bind_after_binding(Lookup::Found((1, "Alpha".into())), 7, true);
    match &found {
        Step::Reply(r) => assert_eq!(subs(r), vec![("{qq}", "7"), ("{name}", "Alpha")]),
        Step::Ask(_) => panic!("expected a reply"),
    }
    assert_eq!(bind_after_binding(Lookup::Missing, 7, true), Step::Ask(BindRequest::CheckPending));
    assert_eq!(bind_after_binding(Lookup::Missing, 7, false), Step::Ask(BindRequest::LookupUser));
    assert_eq!(step_key(&bind_after_binding(Lookup::Failed, 7, false)), Some("error.db_error"));
    assert_eq!(bind_after_pending_check(Ok(false), 7), Step::Ask(BindRequest::CreatePending));
    assert_eq!(step_key(&bind_after_pending_check(Ok(true), 7)), Some("bind.pending_exists"));
    let sent = bind_after_pending_created(Ok("123456".into()), 7, "BotNick".into());
    assert_eq!(subs(&sent), vec![("{qq}", "7"), ("{code}", "123456"), ("{target}", "BotNick")]);
    assert_eq!(
        bind_after_lookup(Ok(Some((9, "Alpha".into()))), 7),
        BindStore::Store { user_id: 9, username: "Alpha".into() }
    );
    match bind_after_lookup(Ok(None), 7) {
        BindStore::Reply(r) => assert_eq!(r.key, "bind.user_not_found"),
        other => panic!("unexpected {:?}", other),
    }
    assert_eq!(bind_after_store(Ok(Ok(())), 7, "Alpha".into()).key, "bind.success");
    assert_eq!(bind_after_store(Ok(Err(8)), 7, "Alpha".into()).key, "bind.already_bound_other");
}

#[test]
fn unbind_flow() {
    assert_eq!(unbind_after_pending(Lookup::Found(()), 1), Step::Ask(UnbindRequest::Unbind));
    assert_eq!(unbind_after_pending(Lookup::Missing, 1), Step::Ask(UnbindRequest::ReadBinding));
    let (r, record) = unbind_after_binding(Lookup::Found("Alpha".into()), 1, false);
    assert!(record);
    assert_eq!(r.key, "bind.confirm_unbind");
    let (r, record) = unbind_after_binding(Lookup::Missing, 1, true);
    assert!(!record);
    assert_eq!(r.key, "sb.unbind.not_bound");
    let (done, clear) = unbind_after_remove(true, 1, false);
    assert_eq!(done.key, "bind.unbind_success");
    assert!(clear);
    let (failed, clear) = unbind_after_remove(false, 1, true);
    assert_eq!(failed.key, "error.db_error");
    assert!(!clear);
    let (failed, clear) = unbind_after_remove(false, 1, false);
    assert_eq!(failed.key, "bind.unbind_failed");
    assert!(!clear);
    let (done, clear) = unbind_after_remove(true, 1, true);
    assert_eq!(done.key, "sb.unbind.success");
    assert!(clear);
}

#[test]
fn mode_flow() {
    assert_eq!(step_key(&mode_start(true, true, 1)), Some("mode.sb_mode_on_official"));
    assert_eq!(mode_start(true, false, 1), Step::Ask(ModeRequest::Store));
    assert_eq!(mode_start(false, false, 1), Step::Ask(ModeRequest::ReadBinding));
    let r = mode_after_read(Lookup::Missing, 1, "osu".into());
    assert_eq!(subs(&r), vec![("{qq}", "1"), ("{mode}", "osu")]);
    let sb = sb_mode_after_read(Lookup::Missing, 1, "osu".into());
    assert_eq!(subs(&sb), vec![("{qq}", "1"), ("{mode}", "0"), ("{mode_name}", "osu")]);
    assert_eq!(sb_bind_after_store(Ok(Err(1)), 1, "x".into(), 2).key, "sb.bind.already_self");
    assert_eq!(sb_bind_after_store(Ok(Err(5)), 1, "x".into(), 2).key, "sb.bind.already_other");
}

#[test]
fn account_resolution() {
    assert_eq!(account_after_storage(Lookup::Found((3, "A".into())), 1), AccountStep::Use(3, "A".into()));
    assert_eq!(account_after_storage(Lookup::Missing, 1), AccountStep::AskUpstream);
    match account_after_upstream(None, 1, Whose::Mentioned) {
        AccountStep::Reply(r) => assert_eq!(r.key, "bind.mentioned_not_bound"),
        other => panic!("unexpected {:?}", other),
    }
    assert!(consult_upstream(&Lookup::Missing));
    assert!(!consult_upstream(&Lookup::Failed));
    assert_eq!(help_key(true), "sys.help_ppy_sb");
    assert_eq!(profile_source(false, Some(4)), ProfileSource::Mentioned(4));
    assert_eq!(profile_source(true, Some(4)), ProfileSource::ByName);
}

#[test]
fn highlight_keeps_group_members() {
    let bindings = vec![(1, 10, "a".to_string()), (2, 20, "b".to_string()), (3, 30, "c".to_string())];
    let kept = group_bindings(bindings, &vec![3, 1]);
    assert_eq!(kept, vec![(1, 10, "a".to_string()), (3, 30, "c".to_string())]);
    assert_eq!(step_key(&highlight_start(false, true, true, true, 1)), Some("highlight.not_supported_in_private"));
    assert_eq!(step_key(&highlight_start(true, true, true, false, 1)), Some("query.no_bound_users"));
    assert_eq!(highlight_start(true, true, true, true, 1), Step::Ask(()));
}
