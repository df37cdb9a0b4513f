//! Reading the replies of the upstream binding bots: the binding that the
//! yumu bot reports (`您已绑定 (id) name，…`), which of its actions carry a
//! reply, and what a reply of the xfs bot means.

use vstd::prelude::*;
use crate::text::{
    chars_of, eq_str, find, find_spec, occurs_at, parse_i64, parse_i64_spec, slice_chars,
    string_of, trim, trim_spec, lemma_find_spec,
};
use crate::onebot::{MessageBody, text_and_mention};

verus! {

/// The characters of `s` before the first `a` or `b` (all of `s` when neither occurs).
pub open spec fn before_either(s: Seq<char>, a: char, b: char) -> Seq<char>
    decreases s.len(),
{
    if s.len() == 0 || s[0] == a || s[0] == b {
        Seq::empty()
    } else {
        seq![s[0]] + before_either(s.drop_first(), a, b)
    }
}

/// The binding the yumu bot reports in a reply: after `您已绑定`, the osu!
/// id between the first `(` and the next `)`, and the name after it up to
/// the first comma (ASCII or full-width), both trimmed; `None` when a part
/// is missing, the id is not a number or the name is empty.
pub open spec fn bind_response_spec(s: Seq<char>) -> Option<(i64, Seq<char>)> {
    match find_spec(s, "您已绑定"@) {
        None => None,
        Some(p) => {
            let after = s.skip(p);
            match find_spec(after, "("@) {
                None => None,
                Some(o) => {
                    let inner = after.skip(o + 1);
                    match find_spec(inner, ")"@) {
                        None => None,
                        Some(c) => match parse_i64_spec(trim_spec(inner.take(c))) {
                            None => None,
                            Some(id) => {
                                let name = trim_spec(before_either(inner.skip(c + 1), ',', '，'));
                                if name.len() > 0 {
                                    Some((id, name))
                                } else {
                                    None
                                }
                            },
                        },
                    }
                },
            }
        },
    }
}

fn before_either_exec(s: &Vec<char>, a: char, b: char) -> (r: Vec<char>)
    ensures
        r@ == before_either(s@, a, b),
{
    let mut i: usize = 0;
    while i < s.len() && s[i] != a && s[i] != b
        invariant
            i <= s@.len(),
            forall|k: int| 0 <= k < i ==> s@[k] != a && s@[k] != b,
        decreases s.len() - i,
    {
        i = i + 1;
    }
    proof {
        lemma_before_either_prefix(s@, a, b, i as int);
    }
    slice_chars(s, 0, i)
}

proof fn lemma_before_either_prefix(s: Seq<char>, a: char, b: char, i: int)
    requires
        0 <= i <= s.len(),
        forall|k: int| 0 <= k < i ==> s[k] != a && s[k] != b,
        i < s.len() ==> s[i] == a || s[i] == b,
    ensures
        before_either(s, a, b) == s.subrange(0, i),
    decreases s.len(),
{
    if s.len() > 0 && s[0] != a && s[0] != b {
        let t = s.drop_first();
        assert forall|k: int| 0 <= k < i - 1 implies t[k] != a && t[k] != b by {
            assert(t[k] == s[k + 1]);
        }
        if i - 1 < t.len() {
            assert(t[i - 1] == s[i]);
        }
        lemma_before_either_prefix(t, a, b, i - 1);
        assert(s.subrange(0, i) =~= seq![s[0]] + t.subrange(0, i - 1));
    } else {
        assert(s.subrange(0, i) =~= Seq::<char>::empty());
    }
}

/// The binding the yumu bot reports (see [`bind_response_spec`]).
pub fn parse_bind_response_text(resp_text: &str) -> (r: Option<(i64, String)>)
    ensures
        match r {
            Some((id, name)) => bind_response_spec(resp_text@) == Some((id, name@)),
            None => bind_response_spec(resp_text@) is None,
        },
{
    let s = chars_of(resp_text);
    let p = match find(&s, &chars_of("您已绑定")) {
        Some(p) => p,
        None => {
            return None;
        },
    };
    proof {
        lemma_find_spec(s@, "您已绑定"@);
    }
    let after = slice_chars(&s, p, s.len());
    proof {
        assert(after@ =~= s@.skip(p as int));
    }
    let o = match find(&after, &chars_of("(")) {
        Some(o) => o,
        None => {
            return None;
        },
    };
    proof {
        reveal_strlit("(");
        lemma_find_spec(after@, "("@);
        assert(occurs_at(after@, "("@, o as int));
    }
    let al = after.len();
    assert((o as int) + 1 <= al as int);
    let inner = slice_chars(&after, o + 1, al);
    proof {
        assert(inner@ =~= after@.skip(o + 1));
    }
    let c = match find(&inner, &chars_of(")")) {
        Some(c) => c,
        None => {
            return None;
        },
    };
    proof {
        reveal_strlit(")");
        lemma_find_spec(inner@, ")"@);
        assert(occurs_at(inner@, ")"@, c as int));
    }
    let id_text = slice_chars(&inner, 0, c);
    proof {
        assert(id_text@ =~= inner@.take(c as int));
    }
    let id = match parse_i64(&trim(&id_text)) {
        Some(id) => id,
        None => {
            return None;
        },
    };
    let il = inner.len();
    assert((c as int) + 1 <= il as int);
    let rest = slice_chars(&inner, c + 1, il);
    proof {
        assert(rest@ =~= inner@.skip(c + 1));
    }
    let name = trim(&before_either_exec(&rest, ',', '，'));
    if name.len() > 0 {
        Some((id, string_of(&name)))
    } else {
        None
    }
}

/// A binding read from a reply has a name that is not empty and holds no
/// comma, and the reply says `您已绑定`.
pub proof fn law_bind_response_shape(s: Seq<char>)
    ensures
        bind_response_spec(s) matches Some((id, name)) ==> name.len() > 0 && find_spec(s, "您已绑定"@) is Some,
{
}

/// The text of a reply action of the yumu bot: only `send_group_msg` and
/// `send_msg` carry one, and an empty text counts as none.
pub open spec fn send_action_text(action: Seq<char>, message: MessageBody) -> Option<Seq<char>> {
    if action != "send_group_msg"@ && action != "send_msg"@ {
        None
    } else {
        let t = text_and_mention(message).0;
        if t.len() == 0 {
            None
        } else {
            Some(t)
        }
    }
}

/// The text of a reply action of the yumu bot (see [`send_action_text`]).
pub fn parse_send_msg_action(action: &str, message: &MessageBody) -> (r: Option<String>)
    ensures
        match r {
            Some(t) => send_action_text(action@, *message) == Some(t@),
            None => send_action_text(action@, *message) is None,
        },
{
    if !eq_str(action, "send_group_msg") && !eq_str(action, "send_msg") {
        return None;
    }
    let (text, _) = crate::onebot::extract_message_and_mention(message);
    if text.as_str().is_empty() {
        None
    } else {
        Some(text)
    }
}

/// The yumu bot's address when the configuration names none.
pub fn yumu_url(configured: &Option<String>) -> (r: String)
    ensures
        r@ == match configured {
            Some(u) => u@,
            None => "ws://121.41.63.60:11735/pub/onebotSocket"@,
        },
{
    match configured {
        Some(u) => string_of(&chars_of(u.as_str())),
        None => string_of(&chars_of("ws://121.41.63.60:11735/pub/onebotSocket")),
    }
}

/// The first line of a text, as `str::lines` yields it: up to the first
/// `\n`, without a `\r` just before it; the whole text when there is no
/// `\n`; empty for an empty text.
pub open spec fn first_line(s: Seq<char>) -> Seq<char> {
    match find_spec(s, "\n"@) {
        None => s,
        Some(i) => if i > 0 && s[i - 1] == '\r' {
            s.take(i - 1)
        } else {
            s.take(i)
        },
    }
}

/// What a reply of the xfs bot means.
#[derive(Debug, Clone, PartialEq, Eq)]
pub enum XfsReply {
    /// Not a `send_group_msg` action: keep reading.
    Ignore,
    /// The user has no binding there, or the reply names nobody.
    NoBinding,
    /// The reply names this osu! user.
    Username(String),
}

/// The meaning of a reply of the xfs bot: other actions are ignored; a
/// reply saying `未绑定 osu! 账号` means no binding; a first line
/// `<name>的个人信息` names the user (an empty name means no binding); any
/// other reply means no binding.
pub open spec fn xfs_reply_spec(action: Seq<char>, message: Seq<char>) -> (int, Seq<char>) {
    if action != "send_group_msg"@ {
        (0, Seq::empty())
    } else if find_spec(message, "未绑定 osu! 账号"@) is Some {
        (1, Seq::empty())
    } else {
        let line = first_line(message);
        match find_spec(line, "的个人信息"@) {
            Some(p) => {
                let name = trim_spec(line.take(p));
                if name.len() == 0 {
                    (1, Seq::empty())
                } else {
                    (2, name)
                }
            },
            None => (1, Seq::empty()),
        }
    }
}

/// The view of a reply's meaning.
pub open spec fn xfs_reply_view(r: XfsReply) -> (int, Seq<char>) {
    match r {
        XfsReply::Ignore => (0, Seq::empty()),
        XfsReply::NoBinding => (1, Seq::empty()),
        XfsReply::Username(n) => (2, n@),
    }
}

fn first_line_exec(s: &Vec<char>) -> (r: Vec<char>)
    ensures
        r@ == first_line(s@),
{
    match find(s, &chars_of("\n")) {
        None => slice_chars(s, 0, s.len()),
        Some(i) => {
            proof {
                reveal_strlit("\n");
                lemma_find_spec(s@, "\n"@);
                assert(occurs_at(s@, "\n"@, i as int));
            }
            if i > 0 && s[i - 1] == '\r' {
                slice_chars(s, 0, i - 1)
            } else {
                slice_chars(s, 0, i)
            }
        },
    }
}

/// The meaning of a reply of the xfs bot (see [`xfs_reply_spec`]).
pub fn xfs_reply(action: &str, message: &str) -> (r: XfsReply)
    ensures
        xfs_reply_view(r) == xfs_reply_spec(action@, message@),
{
    if !eq_str(action, "send_group_msg") {
        return XfsReply::Ignore;
    }
    let m = chars_of(message);
    if find(&m, &chars_of("未绑定 osu! 账号")).is_some() {
        return XfsReply::NoBinding;
    }
    let line = first_line_exec(&m);
    match find(&line, &chars_of("的个人信息")) {
        Some(p) => {
            proof {
                lemma_find_spec(line@, "的个人信息"@);
            }
            let name = trim(&slice_chars(&line, 0, p));
            if name.len() == 0 {
                XfsReply::NoBinding
            } else {
                XfsReply::Username(string_of(&name))
            }
        },
        None => XfsReply::NoBinding,
    }
}

} // verus!
