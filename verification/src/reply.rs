//! Replies: a key of the bot's string table with the values of its
//! placeholders, filled in by replacing each placeholder in turn; and the
//! messages for API errors.

use vstd::prelude::*;
use crate::text::{chars_of, dec_digits, int_to_dec, i64_chars, replace_all, replace_spec, string_of, u64_digits};

verus! {

/// A reply: the key of a message template and the values of its
/// placeholders, substituted in order.
#[derive(Debug, Clone, PartialEq, Eq)]
pub struct Reply {
    pub key: &'static str,
    pub subs: Vec<(&'static str, String)>,
}

/// The view of a reply.
pub open spec fn reply_view(r: Reply) -> (Seq<char>, Seq<(Seq<char>, Seq<char>)>) {
    (r.key@, r.subs@.map_values(|p: (&'static str, String)| (p.0@, p.1@)))
}

/// A template with each placeholder replaced in turn.
pub open spec fn fill_spec(template: Seq<char>, subs: Seq<(Seq<char>, Seq<char>)>) -> Seq<char>
    decreases subs.len(),
{
    if subs.len() == 0 {
        template
    } else {
        replace_spec(fill_spec(template, subs.drop_last()), subs.last().0, subs.last().1)
    }
}

/// Fills a template: each placeholder replaced in turn, every occurrence.
pub fn fill_template(template: &str, subs: &Vec<(&'static str, String)>) -> (r: String)
    requires
        forall|i: int| 0 <= i < subs@.len() ==> (#[trigger] subs@[i]).0@.len() > 0,
    ensures
        r@ == fill_spec(template@, subs@.map_values(|p: (&'static str, String)| (p.0@, p.1@))),
{
    let ghost views = subs@.map_values(|p: (&'static str, String)| (p.0@, p.1@));
    let mut text = chars_of(template);
    let mut i: usize = 0;
    while i < subs.len()
        invariant
            i <= subs@.len(),
            views == subs@.map_values(|p: (&'static str, String)| (p.0@, p.1@)),
            forall|k: int| 0 <= k < subs@.len() ==> (#[trigger] subs@[k]).0@.len() > 0,
            text@ == fill_spec(template@, views.take(i as int)),
        decreases subs.len() - i,
    {
        let pat = chars_of(subs[i].0);
        let with = chars_of(subs[i].1.as_str());
        proof {
            assert(views.take(i as int + 1).drop_last() =~= views.take(i as int));
            assert(views.take(i as int + 1).last() == (subs@[i as int].0@, subs@[i as int].1@));
        }
        text = replace_all(&text, &pat, &with);
        i = i + 1;
    }
    proof {
        assert(views.take(subs@.len() as int) =~= views);
    }
    string_of(&text)
}

/// The reply `key` with `{qq}` set to the asking user.
pub open spec fn qq_reply(key: Seq<char>, qq: i64) -> (Seq<char>, Seq<(Seq<char>, Seq<char>)>) {
    (key, seq![("{qq}"@, int_to_dec(qq as int))])
}

/// The reply `key` for the user `qq`.
pub fn reply_to(key: &'static str, qq: i64) -> (r: Reply)
    ensures
        reply_view(r) == qq_reply(key@, qq),
{
    let mut subs: Vec<(&'static str, String)> = Vec::new();
    subs.push(("{qq}", string_of(&i64_chars(qq))));
    proof {
        assert(reply_view(Reply { key, subs }).1 =~= seq![("{qq}"@, int_to_dec(qq as int))]);
    }
    Reply { key, subs }
}

/// A copy of a reply.
pub fn copy_reply(r: &Reply) -> (out: Reply)
    ensures
        reply_view(out) == reply_view(*r),
{
    let mut subs: Vec<(&'static str, String)> = Vec::new();
    let mut i: usize = 0;
    while i < r.subs.len()
        invariant
            i <= r.subs@.len(),
            subs@.map_values(|p: (&'static str, String)| (p.0@, p.1@)) == r.subs@.take(i as int).map_values(
                |p: (&'static str, String)| (p.0@, p.1@),
            ),
        decreases r.subs.len() - i,
    {
        let ghost before = subs@;
        let name = r.subs[i].0;
        let value = r.subs[i].1.clone();
        subs.push((name, value));
        proof {
            assert(subs@.map_values(|p: (&'static str, String)| (p.0@, p.1@)) =~= before.map_values(
                |p: (&'static str, String)| (p.0@, p.1@),
            ).push((r.subs@[i as int].0@, r.subs@[i as int].1@)));
            assert(r.subs@.take(i as int + 1).map_values(|p: (&'static str, String)| (p.0@, p.1@)) =~= r.subs@.take(
                i as int,
            ).map_values(|p: (&'static str, String)| (p.0@, p.1@)).push((r.subs@[i as int].0@, r.subs@[i as int].1@)));
        }
        i = i + 1;
    }
    proof {
        assert(r.subs@.take(r.subs@.len() as int) =~= r.subs@);
    }
    Reply { key: r.key, subs }
}

/// Adds a placeholder value to a reply.
pub fn with_sub(r: Reply, placeholder: &'static str, value: String) -> (out: Reply)
    ensures
        reply_view(out) == (reply_view(r).0, reply_view(r).1.push((placeholder@, value@))),
{
    let mut subs = r.subs;
    let ghost before = subs@;
    subs.push((placeholder, value));
    proof {
        assert(subs@.map_values(|p: (&'static str, String)| (p.0@, p.1@)) =~= before.map_values(
            |p: (&'static str, String)| (p.0@, p.1@),
        ).push((placeholder@, value@)));
    }
    Reply { key: r.key, subs }
}

/// An API error as the messages tell them apart.
#[derive(Debug, Clone, Copy, PartialEq, Eq, Structural)]
pub enum DedupApiError {
    NotFound,
    MissingApiKey,
    OAuthError,
    RateLimitedWithRetryAfter(Option<u64>),
    ClientRateLimited,
    Other,
}

/// The message of an API error: its key, `{qq}`, and `{secs}` when the API
/// said how long to wait.
pub open spec fn api_error_reply(e: DedupApiError, qq: i64) -> (Seq<char>, Seq<(Seq<char>, Seq<char>)>) {
    match e {
        DedupApiError::NotFound => qq_reply("error.not_found"@, qq),
        DedupApiError::MissingApiKey => qq_reply("error.api_key"@, qq),
        DedupApiError::OAuthError => qq_reply("error.oauth"@, qq),
        DedupApiError::RateLimitedWithRetryAfter(None) => qq_reply("error.rate_limit_generic"@, qq),
        DedupApiError::RateLimitedWithRetryAfter(Some(s)) => (
            "error.rate_limit"@,
            seq![("{qq}"@, int_to_dec(qq as int)), ("{secs}"@, dec_digits(s as nat))],
        ),
        DedupApiError::ClientRateLimited => qq_reply("error.client_rate_limit"@, qq),
        DedupApiError::Other => qq_reply("error.query_failed"@, qq),
    }
}

impl DedupApiError {
    /// The message of this error for the user `qq` (see [`api_error_reply`]).
    pub fn to_user_msg(&self, qq: i64) -> (r: Reply)
        ensures
            reply_view(r) == api_error_reply(*self, qq),
    {
        match self {
            DedupApiError::NotFound => reply_to("error.not_found", qq),
            DedupApiError::MissingApiKey => reply_to("error.api_key", qq),
            DedupApiError::OAuthError => reply_to("error.oauth", qq),
            DedupApiError::RateLimitedWithRetryAfter(None) => reply_to("error.rate_limit_generic", qq),
            DedupApiError::RateLimitedWithRetryAfter(Some(s)) => {
                let r = reply_to("error.rate_limit", qq);
                with_sub(r, "{secs}", string_of(&u64_digits(*s)))
            },
            DedupApiError::ClientRateLimited => reply_to("error.client_rate_limit", qq),
            DedupApiError::Other => reply_to("error.query_failed", qq),
        }
    }
}

/// Every API error message substitutes the asking user first.
pub proof fn law_api_error_names_user(e: DedupApiError, qq: i64)
    ensures
        api_error_reply(e, qq).1.len() >= 1,
        api_error_reply(e, qq).1[0] == ("{qq}"@, int_to_dec(qq as int)),
{
}

} // verus!
