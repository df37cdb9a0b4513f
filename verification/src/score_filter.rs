//! Score filters written as `key<op>value` tokens (`miss=0`, `combo>=500`,
//! `mod==HDDT`): parsing a token, integer comparison, mod-set matching, and
//! the plan that decides a score against a list of filters. Filters on `pp`
//! and accuracy compare floating-point numbers; the plan hands them back to
//! the caller, which decides each of them.

use vstd::prelude::*;
use crate::text::{
    all_ascii, ascii_lower, ascii_upper, chars_eq, chars_of, eq_str, find, find_spec, occurs_at, parse_i64,
    parse_i64_spec, slice_chars, split_on, split_spec, string_of, trim, trim_spec,
};

verus! {

/// The comparison of a filter token. For numbers `=` and `==` both mean
/// equality; for mods `=` means "includes all of" and `==` "exactly".
#[derive(Debug, Clone, Copy, PartialEq, Eq, Structural)]
pub enum FilterOp {
    Eq,
    EqEq,
    NotEq,
    Lt,
    LtEq,
    Gt,
    GtEq,
}

/// How an operator is written.
pub open spec fn op_text(op: FilterOp) -> Seq<char> {
    match op {
        FilterOp::Eq => "="@,
        FilterOp::EqEq => "=="@,
        FilterOp::NotEq => "!="@,
        FilterOp::Lt => "<"@,
        FilterOp::LtEq => "<="@,
        FilterOp::Gt => ">"@,
        FilterOp::GtEq => ">="@,
    }
}

/// Trying one operator on a token: `None` moves on to the next operator
/// (it does not occur, or its first occurrence has no key before it);
/// `Some(answer)` ends the parse.
pub open spec fn try_op(t: Seq<char>, op: FilterOp) -> Option<Option<(Seq<char>, FilterOp, Seq<char>)>> {
    let pat = op_text(op);
    match find_spec(t, pat) {
        None => None,
        Some(i) => if i == 0 {
            None
        } else if i + pat.len() >= t.len() {
            Some(None)
        } else {
            Some(Some((t.take(i), op, t.skip(i + pat.len()))))
        },
    }
}

/// The operators in the order they are tried: two-character ones first, so
/// that `>=` is not read as `>` followed by a value starting with `=`.
pub open spec fn op_order() -> Seq<FilterOp> {
    seq![FilterOp::EqEq, FilterOp::GtEq, FilterOp::LtEq, FilterOp::NotEq, FilterOp::Eq, FilterOp::Gt, FilterOp::Lt]
}

/// The answer of the first operator in `ops` that ends the parse.
pub open spec fn first_answer(t: Seq<char>, ops: Seq<FilterOp>) -> Option<(Seq<char>, FilterOp, Seq<char>)>
    decreases ops.len(),
{
    if ops.len() == 0 {
        None
    } else {
        match try_op(t, ops[0]) {
            Some(answer) => answer,
            None => first_answer(t, ops.drop_first()),
        }
    }
}

/// A token split into key, operator and value, or `None` when it is malformed.
pub open spec fn parse_token_spec(t: Seq<char>) -> Option<(Seq<char>, FilterOp, Seq<char>)> {
    first_answer(t, op_order())
}

fn op_chars(op: FilterOp) -> (r: Vec<char>)
    ensures
        r@ == op_text(op),
{
    match op {
        FilterOp::Eq => chars_of("="),
        FilterOp::EqEq => chars_of("=="),
        FilterOp::NotEq => chars_of("!="),
        FilterOp::Lt => chars_of("<"),
        FilterOp::LtEq => chars_of("<="),
        FilterOp::Gt => chars_of(">"),
        FilterOp::GtEq => chars_of(">="),
    }
}

fn try_op_exec(t: &Vec<char>, op: FilterOp) -> (r: Option<Option<(String, FilterOp, String)>>)
    ensures
        match r {
            None => try_op(t@, op) is None,
            Some(None) => try_op(t@, op) == Some(None::<(Seq<char>, FilterOp, Seq<char>)>),
            Some(Some((k, o, v))) => try_op(t@, op) == Some(Some((k@, o, v@))),
        },
{
    let pat = op_chars(op);
    match find(t, &pat) {
        None => None,
        Some(i) => {
            proof {
                crate::text::lemma_find_spec(t@, pat@);
                assert(occurs_at(t@, pat@, i as int));
                assert(i + pat@.len() <= t@.len());
            }
            let tl = t.len();
            let pl = pat.len();
            assert(i + pl <= tl);
            let end: usize = i + pl;
            if i == 0 {
                None
            } else if end >= t.len() {
                Some(None)
            } else {
                let key = slice_chars(t, 0, i);
                let value = slice_chars(t, end, t.len());
                proof {
                    assert(key@ =~= t@.take(i as int));
                    assert(value@ =~= t@.skip(i + pat.len()));
                }
                Some(Some((string_of(&key), op, string_of(&value))))
            }
        },
    }
}

/// Splits a `key<op>value` token; `None` when the token has no operator
/// with a key before it, or its value is empty.
pub fn parse_filter_token(token: &str) -> (r: Option<(String, FilterOp, String)>)
    ensures
        match r {
            None => parse_token_spec(token@) is None,
            Some((k, o, v)) => parse_token_spec(token@) == Some((k@, o, v@)),
        },
{
    let t = chars_of(token);
    let ghost ops = op_order();
    proof {
        reveal_with_fuel(first_answer, 8);
        assert(ops.drop_first() =~= seq![FilterOp::GtEq, FilterOp::LtEq, FilterOp::NotEq, FilterOp::Eq, FilterOp::Gt, FilterOp::Lt]);
        assert(ops.drop_first().drop_first() =~= seq![FilterOp::LtEq, FilterOp::NotEq, FilterOp::Eq, FilterOp::Gt, FilterOp::Lt]);
        assert(ops.drop_first().drop_first().drop_first() =~= seq![FilterOp::NotEq, FilterOp::Eq, FilterOp::Gt, FilterOp::Lt]);
        assert(ops.drop_first().drop_first().drop_first().drop_first() =~= seq![FilterOp::Eq, FilterOp::Gt, FilterOp::Lt]);
        assert(ops.drop_first().drop_first().drop_first().drop_first().drop_first() =~= seq![FilterOp::Gt, FilterOp::Lt]);
        assert(ops.drop_first().drop_first().drop_first().drop_first().drop_first().drop_first() =~= seq![FilterOp::Lt]);
        assert(ops.drop_first().drop_first().drop_first().drop_first().drop_first().drop_first().drop_first() =~= Seq::<FilterOp>::empty());
    }
    if let Some(a) = try_op_exec(&t, FilterOp::EqEq) {
        return a;
    }
    if let Some(a) = try_op_exec(&t, FilterOp::GtEq) {
        return a;
    }
    if let Some(a) = try_op_exec(&t, FilterOp::LtEq) {
        return a;
    }
    if let Some(a) = try_op_exec(&t, FilterOp::NotEq) {
        return a;
    }
    if let Some(a) = try_op_exec(&t, FilterOp::Eq) {
        return a;
    }
    if let Some(a) = try_op_exec(&t, FilterOp::Gt) {
        return a;
    }
    if let Some(a) = try_op_exec(&t, FilterOp::Lt) {
        return a;
    }
    None
}

proof fn lemma_first_answer_parts(t: Seq<char>, ops: Seq<FilterOp>)
    ensures
        first_answer(t, ops) matches Some((k, op, v)) ==> t == k + op_text(op) + v && k.len() > 0 && v.len() > 0,
    decreases ops.len(),
{
    if ops.len() > 0 {
        lemma_first_answer_parts(t, ops.drop_first());
        let pat = op_text(ops[0]);
        crate::text::lemma_find_spec(t, pat);
        if let Some(i) = find_spec(t, pat) {
            if i > 0 && i + pat.len() < t.len() {
                assert(t.subrange(i, i + pat.len()) == pat);
                assert(t =~= t.take(i) + pat + t.skip(i + pat.len()));
            }
        }
    }
}

/// A parsed token is its key, its operator and its value written one after
/// the other, with a key and a value that are not empty.
pub proof fn law_parse_token_roundtrip(t: Seq<char>)
    ensures
        parse_token_spec(t) matches Some((k, op, v)) ==> t == k + op_text(op) + v && k.len() > 0 && v.len() > 0,
{
    lemma_first_answer_parts(t, op_order());
}

/// A character that operators are written with.
pub open spec fn is_op_char(c: char) -> bool {
    c == '=' || c == '<' || c == '>' || c == '!'
}

/// No operator character occurs in `s`.
pub open spec fn op_free(s: Seq<char>) -> bool {
    forall|i: int| 0 <= i < s.len() ==> !is_op_char(#[trigger] s[i])
}

proof fn lemma_op_texts()
    ensures
        forall|op: FilterOp| 1 <= (#[trigger] op_text(op)).len() <= 2,
        forall|op: FilterOp, i: int| 0 <= i < op_text(op).len() ==> is_op_char(#[trigger] op_text(op)[i]),
        op_text(FilterOp::Eq) == seq!['='],
        op_text(FilterOp::EqEq) == seq!['=', '='],
        op_text(FilterOp::NotEq) == seq!['!', '='],
        op_text(FilterOp::Lt) == seq!['<'],
        op_text(FilterOp::LtEq) == seq!['<', '='],
        op_text(FilterOp::Gt) == seq!['>'],
        op_text(FilterOp::GtEq) == seq!['>', '='],
{
    reveal_strlit("=");
    reveal_strlit("==");
    reveal_strlit("!=");
    reveal_strlit("<");
    reveal_strlit("<=");
    reveal_strlit(">");
    reveal_strlit(">=");
    assert forall|op: FilterOp, i: int| 0 <= i < op_text(op).len() implies is_op_char(#[trigger] op_text(op)[i]) by {
        match op {
            FilterOp::Eq => {},
            FilterOp::EqEq => {},
            FilterOp::NotEq => {},
            FilterOp::Lt => {},
            FilterOp::LtEq => {},
            FilterOp::Gt => {},
            FilterOp::GtEq => {},
        }
    }
}

/// The operator `op2` is not written inside the text of `op`.
spec fn not_inside(op2: FilterOp, op: FilterOp) -> bool {
    forall|j: int| !occurs_at(op_text(op), op_text(op2), j)
}

proof fn lemma_occurrence_in_op(k: Seq<char>, op: FilterOp, v: Seq<char>, op2: FilterOp, j: int)
    requires
        op_free(k),
        op_free(v),
        occurs_at(k + op_text(op) + v, op_text(op2), j),
    ensures
        occurs_at(op_text(op), op_text(op2), j - k.len()),
{
    lemma_op_texts();
    let t = k + op_text(op) + v;
    let o = op_text(op);
    let p = op_text(op2);
    assert forall|i: int| 0 <= i < p.len() implies k.len() <= j + i < k.len() + o.len() && #[trigger] t[j + i] == o[j + i - k.len()] by {
        assert(t.subrange(j, j + p.len())[i] == p[i]);
        assert(is_op_char(p[i]));
        if j + i < k.len() {
            assert(t[j + i] == k[j + i]);
        } else if j + i >= k.len() + o.len() {
            assert(t[j + i] == v[j + i - k.len() - o.len()]);
        }
    }
    assert(k.len() <= j) by {
        assert(t.subrange(j, j + p.len())[0] == p[0]);
        assert(is_op_char(p[0]));
        if j < k.len() {
            assert(t[j] == k[j]);
        }
    }
    assert(j + p.len() - 1 < k.len() + o.len()) by {
        let last = p.len() - 1;
        assert(t.subrange(j, j + p.len())[last] == p[last]);
        assert(is_op_char(p[last]));
        if j + last >= k.len() + o.len() {
            assert(t[j + last] == v[j + last - k.len() - o.len()]);
        }
    }
    assert(o.subrange(j - k.len(), j - k.len() + p.len()) =~= p) by {
        assert forall|i: int| 0 <= i < p.len() implies o.subrange(j - k.len(), j - k.len() + p.len())[i] == p[i] by {
            assert(t.subrange(j, j + p.len())[i] == p[i]);
        }
    }
}

proof fn lemma_try_op_skips(k: Seq<char>, op: FilterOp, v: Seq<char>, op2: FilterOp)
    requires
        op_free(k),
        op_free(v),
        not_inside(op2, op),
    ensures
        try_op(k + op_text(op) + v, op2) is None,
{
    let t = k + op_text(op) + v;
    crate::text::lemma_find_spec(t, op_text(op2));
    if let Some(j) = find_spec(t, op_text(op2)) {
        lemma_occurrence_in_op(k, op, v, op2, j);
    }
}

proof fn lemma_try_op_hits(k: Seq<char>, op: FilterOp, v: Seq<char>)
    requires
        op_free(k),
        op_free(v),
        k.len() > 0,
        v.len() > 0,
    ensures
        try_op(k + op_text(op) + v, op) == Some(Some((k, op, v))),
{
    lemma_op_texts();
    let t = k + op_text(op) + v;
    let o = op_text(op);
    crate::text::lemma_find_spec(t, o);
    assert(t.subrange(k.len() as int, (k.len() + o.len()) as int) =~= o);
    assert(occurs_at(t, o, k.len() as int));
    let j = find_spec(t, o).unwrap();
    lemma_occurrence_in_op(k, op, v, op, j);
    assert(j == k.len());
    assert(t.take(j) =~= k);
    assert(t.skip(j + o.len()) =~= v);
}

/// A key and a value that hold no operator character, written around an
/// operator, parse back as that key, operator and value.
pub proof fn law_parse_token_from_parts(k: Seq<char>, op: FilterOp, v: Seq<char>)
    requires
        k.len() > 0,
        v.len() > 0,
        op_free(k),
        op_free(v),
    ensures
        parse_token_spec(k + op_text(op) + v) == Some((k, op, v)),
{
    lemma_op_texts();
    let t = k + op_text(op) + v;
    let ops = op_order();
    reveal_with_fuel(first_answer, 8);
    assert(ops.drop_first() =~= seq![FilterOp::GtEq, FilterOp::LtEq, FilterOp::NotEq, FilterOp::Eq, FilterOp::Gt, FilterOp::Lt]);
    assert(ops.drop_first().drop_first() =~= seq![FilterOp::LtEq, FilterOp::NotEq, FilterOp::Eq, FilterOp::Gt, FilterOp::Lt]);
    assert(ops.drop_first().drop_first().drop_first() =~= seq![FilterOp::NotEq, FilterOp::Eq, FilterOp::Gt, FilterOp::Lt]);
    assert(ops.drop_first().drop_first().drop_first().drop_first() =~= seq![FilterOp::Eq, FilterOp::Gt, FilterOp::Lt]);
    assert(ops.drop_first().drop_first().drop_first().drop_first().drop_first() =~= seq![FilterOp::Gt, FilterOp::Lt]);
    assert(ops.drop_first().drop_first().drop_first().drop_first().drop_first().drop_first() =~= seq![FilterOp::Lt]);
    lemma_try_op_hits(k, op, v);
    assert forall|op2: FilterOp| op_index(op2) < op_index(op) implies #[trigger] try_op(t, op2) is None by {
        assert(not_inside(op2, op)) by {
            assert forall|j: int| !occurs_at(op_text(op), op_text(op2), j) by {
                if occurs_at(op_text(op), op_text(op2), j) {
                    assert(op_text(op).subrange(j, j + op_text(op2).len()) == op_text(op2));
                    assert(op_text(op).subrange(j, j + op_text(op2).len())[0] == op_text(op2)[0]);
                    if op_text(op2).len() == 2 {
                        assert(op_text(op).subrange(j, j + op_text(op2).len())[1] == op_text(op2)[1]);
                    }
                }
            }
        }
        lemma_try_op_skips(k, op, v, op2);
    }
}

/// Where an operator stands in the order operators are tried.
spec fn op_index(op: FilterOp) -> int {
    match op {
        FilterOp::EqEq => 0,
        FilterOp::GtEq => 1,
        FilterOp::LtEq => 2,
        FilterOp::NotEq => 3,
        FilterOp::Eq => 4,
        FilterOp::Gt => 5,
        FilterOp::Lt => 6,
    }
}

/// Integer comparison under a filter operator.
pub open spec fn op_holds(a: i64, b: i64, op: FilterOp) -> bool {
    match op {
        FilterOp::Eq | FilterOp::EqEq => a == b,
        FilterOp::NotEq => a != b,
        FilterOp::Lt => a < b,
        FilterOp::LtEq => a <= b,
        FilterOp::Gt => a > b,
        FilterOp::GtEq => a >= b,
    }
}

/// Compares two integers with a filter operator.
pub fn cmp_i64(a: i64, b: i64, op: FilterOp) -> (r: bool)
    ensures
        r == op_holds(a, b, op),
{
    match op {
        FilterOp::Eq | FilterOp::EqEq => a == b,
        FilterOp::NotEq => a != b,
        FilterOp::Lt => a < b,
        FilterOp::LtEq => a <= b,
        FilterOp::Gt => a > b,
        FilterOp::GtEq => a >= b,
    }
}

/// On integers `=` and `==` agree, `!=` is the negation of `=`, `<` of `>=`
/// and `>` of `<=`.
pub proof fn law_op_complements(a: i64, b: i64)
    ensures
        op_holds(a, b, FilterOp::Eq) == op_holds(a, b, FilterOp::EqEq),
        op_holds(a, b, FilterOp::NotEq) == !op_holds(a, b, FilterOp::Eq),
        op_holds(a, b, FilterOp::Lt) == !op_holds(a, b, FilterOp::GtEq),
        op_holds(a, b, FilterOp::Gt) == !op_holds(a, b, FilterOp::LtEq),
{
}

} // verus!

verus! {

/// What `str::to_uppercase` gives for a string (Unicode upper case).
pub uninterp spec fn uppercase(s: Seq<char>) -> Seq<char>;

/// `str::to_uppercase`. Trusted: the result depends on the string alone;
/// what it is, Unicode's case tables decide, and the name stands for it. On
/// ASCII text they map each lower-case letter to its upper case and leave
/// every other character.
#[verifier::external_body]
fn to_uppercase(s: &str) -> (r: String)
    ensures
        r@ == uppercase(s@),
        all_ascii(s@) ==> r@ == s@.map_values(|c: char| ascii_upper(c)),
{
    s.to_uppercase()
}

/// A run of characters cut into pieces of two.
pub open spec fn pairs(s: Seq<char>) -> Seq<Seq<char>>
    decreases s.len(),
{
    if s.len() < 2 {
        Seq::empty()
    } else {
        seq![s.take(2)] + pairs(s.skip(2))
    }
}

/// `NM` in any ASCII case: the "no mod" marker.
pub open spec fn is_nm(s: Seq<char>) -> bool {
    s.len() == 2 && ascii_lower(s[0]) == 'n' && ascii_lower(s[1]) == 'm'
}

/// A comma-separated part of a mod list, trimmed and in upper case.
pub open spec fn part_upper(p: Seq<char>) -> Seq<char> {
    uppercase(trim_spec(p))
}

/// Every part has an even number of characters.
pub open spec fn all_even(parts: Seq<Seq<char>>) -> bool {
    forall|i: int| 0 <= i < parts.len() ==> #[trigger] part_upper(parts[i]).len() % 2 == 0
}

/// The acronyms of all parts, in order.
pub open spec fn mod_list(parts: Seq<Seq<char>>) -> Seq<Seq<char>>
    decreases parts.len(),
{
    if parts.len() == 0 {
        Seq::empty()
    } else {
        mod_list(parts.drop_last()) + pairs(part_upper(parts.last()))
    }
}

/// The mods a `mod` filter value asks for: none for an empty value or `NM`;
/// else each comma-separated part, trimmed and upper-cased, cut into
/// two-letter acronyms; `None` when a part has an odd length.
pub open spec fn parse_mod_spec(v: Seq<char>) -> Option<Seq<Seq<char>>> {
    if v.len() == 0 {
        Some(Seq::empty())
    } else if is_nm(trim_spec(v)) {
        Some(Seq::empty())
    } else {
        let parts = split_spec(v, ',');
        if all_even(parts) {
            Some(mod_list(parts))
        } else {
            None
        }
    }
}

/// The views of a list of strings.
pub open spec fn string_views(v: Seq<String>) -> Seq<Seq<char>> {
    v.map_values(|s: String| s@)
}

/// Cuts an upper-cased part of a mod list into two-letter acronyms; `None`
/// when its length is odd.
pub fn mod_pairs(upper: &Vec<char>) -> (r: Option<Vec<String>>)
    ensures
        r is Some == (upper@.len() % 2 == 0),
        r matches Some(v) ==> string_views(v@) == pairs(upper@),
{
    if upper.len() % 2 != 0 {
        return None;
    }
    let mut out: Vec<String> = Vec::new();
    let mut i: usize = 0;
    proof {
        assert(upper@.skip(0) =~= upper@);
        assert(string_views(out@) =~= Seq::<Seq<char>>::empty());
        assert(string_views(out@) + pairs(upper@) =~= pairs(upper@));
    }
    while i < upper.len()
        invariant
            i <= upper@.len(),
            i % 2 == 0,
            upper@.len() % 2 == 0,
            string_views(out@) + pairs(upper@.skip(i as int)) == pairs(upper@),
        decreases upper.len() - i,
    {
        let piece = slice_chars(upper, i, i + 2);
        let ghost rest = upper@.skip(i as int);
        proof {
            assert(rest.take(2) =~= piece@);
            assert(rest.skip(2) =~= upper@.skip(i + 2));
        }
        let ghost before = string_views(out@);
        let ps = string_of(&piece);
        out.push(ps);
        proof {
            assert(string_views(out@) =~= before.push(piece@));
            assert(pairs(rest) == seq![piece@] + pairs(upper@.skip(i + 2)));
            assert(string_views(out@) + pairs(upper@.skip(i + 2)) =~= before + pairs(rest));
        }
        i = i + 2;
    }
    proof {
        assert(upper@.skip(i as int).len() == 0);
        assert(string_views(out@) + pairs(upper@.skip(i as int)) =~= string_views(out@));
    }
    Some(out)
}

fn is_nm_exec(s: &Vec<char>) -> (r: bool)
    ensures
        r == is_nm(s@),
{
    if s.len() != 2 {
        return false;
    }
    let a = s[0];
    let b = s[1];
    (a == 'n' || a == 'N') && (b == 'm' || b == 'M')
}

/// The mods a `mod` filter value asks for (see [`parse_mod_spec`]).
pub fn parse_mod_filter(value: &str) -> (r: Option<Vec<String>>)
    ensures
        match r {
            Some(v) => parse_mod_spec(value@) == Some(string_views(v@)),
            None => parse_mod_spec(value@) is None,
        },
{
    let v = chars_of(value);
    if v.len() == 0 {
        proof {
            assert(string_views(Seq::<String>::empty()) =~= Seq::<Seq<char>>::empty());
        }
        return Some(Vec::new());
    }
    let tv = trim(&v);
    if is_nm_exec(&tv) {
        proof {
            assert(string_views(Seq::<String>::empty()) =~= Seq::<Seq<char>>::empty());
        }
        return Some(Vec::new());
    }
    let parts = split_on(&v, ',');
    let ghost ps = split_spec(v@, ',');
    let mut out: Vec<String> = Vec::new();
    let mut i: usize = 0;
    while i < parts.len()
        invariant
            i <= parts@.len(),
            parts@.len() == ps.len(),
            forall|k: int| 0 <= k < parts@.len() ==> #[trigger] parts@[k]@ == ps[k],
            v@ == value@,
            v@.len() > 0,
            !is_nm(trim_spec(v@)),
            ps == split_spec(v@, ','),
            forall|k: int| 0 <= k < i ==> #[trigger] part_upper(ps[k]).len() % 2 == 0,
            string_views(out@) == mod_list(ps.take(i as int)),
        decreases parts.len() - i,
    {
        let trimmed = string_of(&trim(&parts[i]));
        let upper = chars_of(to_uppercase(trimmed.as_str()).as_str());
        proof {
            assert(upper@ == part_upper(ps[i as int]));
        }
        match mod_pairs(&upper) {
            None => {
                proof {
                    assert(!all_even(ps));
                    assert(v@ == value@);
                    assert(!is_nm(trim_spec(value@)));
                    assert(parse_mod_spec(value@) is None);
                }
                return None;
            },
            Some(chunk) => {
                let mut chunk = chunk;
                proof {
                    assert(ps.take(i as int + 1).drop_last() =~= ps.take(i as int));
                    assert(ps.take(i as int + 1).last() == ps[i as int]);
                    assert(string_views(out@ + chunk@) =~= string_views(out@) + string_views(chunk@));
                }
                out.append(&mut chunk);
            },
        }
        i = i + 1;
    }
    proof {
        assert(ps.take(ps.len() as int) =~= ps);
    }
    Some(out)
}

} // verus!

verus! {

/// `present` holds every acronym of `required`.
pub open spec fn includes_all(present: Seq<Seq<char>>, required: Seq<Seq<char>>) -> bool {
    forall|i: int| 0 <= i < required.len() ==> present.contains(#[trigger] required[i])
}

/// Whether a score with the mods `present` passes `mod<op>value`: `=` asks
/// for all listed mods, `==` for exactly them as sets (every listed mod
/// present and every present mod listed), `!=` for not all of them; the
/// ordering operators mean nothing for mods and pass; a value that does not
/// parse fails.
pub open spec fn mod_filter_spec(present: Seq<Seq<char>>, op: FilterOp, value: Seq<char>) -> bool {
    match op {
        FilterOp::Lt | FilterOp::LtEq | FilterOp::Gt | FilterOp::GtEq => true,
        _ => match parse_mod_spec(value) {
            None => false,
            Some(required) => match op {
                FilterOp::Eq => includes_all(present, required),
                FilterOp::EqEq => includes_all(present, required) && includes_all(required, present),
                _ => !includes_all(present, required),
            },
        },
    }
}

fn list_contains(list: &Vec<String>, item: &String) -> (r: bool)
    ensures
        r == string_views(list@).contains(item@),
{
    let target = chars_of(item.as_str());
    let mut i: usize = 0;
    while i < list.len()
        invariant
            i <= list@.len(),
            target@ == item@,
            forall|k: int| 0 <= k < i ==> (#[trigger] list@[k])@ != item@,
        decreases list.len() - i,
    {
        if chars_eq(&chars_of(list[i].as_str()), &target) {
            proof {
                assert(string_views(list@)[i as int] == item@);
            }
            return true;
        }
        i = i + 1;
    }
    proof {
        if string_views(list@).contains(item@) {
            let k = choose|k: int| 0 <= k < string_views(list@).len() && string_views(list@)[k] == item@;
            assert(list@[k]@ == item@);
        }
    }
    false
}

/// Whether a score with the mods `mods` passes `mod<op>value` (see [`mod_filter_spec`]).
pub fn apply_mod_filter(mods: &Vec<String>, op: FilterOp, value: &str) -> (r: bool)
    ensures
        r == mod_filter_spec(string_views(mods@), op, value@),
{
    match op {
        FilterOp::Lt | FilterOp::LtEq | FilterOp::Gt | FilterOp::GtEq => {
            return true;
        },
        _ => {},
    }
    let required = match parse_mod_filter(value) {
        Some(v) => v,
        None => {
            return false;
        },
    };
    let ghost req = string_views(required@);
    let mut subset = true;
    let mut i: usize = 0;
    while i < required.len()
        invariant
            i <= required@.len(),
            req == string_views(required@),
            subset == (forall|k: int| 0 <= k < i ==> string_views(mods@).contains(#[trigger] req[k])),
        decreases required.len() - i,
    {
        let found = list_contains(mods, &required[i]);
        proof {
            assert(req[i as int] == required@[i as int]@);
        }
        if !found {
            subset = false;
        }
        proof {
            if subset {
                assert forall|k: int| 0 <= k < i + 1 implies string_views(mods@).contains(#[trigger] req[k]) by {
                    if k == i {
                    }
                }
            } else if !found {
                assert(!string_views(mods@).contains(req[i as int]));
            }
        }
        i = i + 1;
    }
    let ghost pres = string_views(mods@);
    let mut covered = true;
    let mut j: usize = 0;
    while j < mods.len()
        invariant
            j <= mods@.len(),
            pres == string_views(mods@),
            req == string_views(required@),
            covered == (forall|k: int| 0 <= k < j ==> req.contains(#[trigger] pres[k])),
        decreases mods.len() - j,
    {
        let found = list_contains(&required, &mods[j]);
        proof {
            assert(pres[j as int] == mods@[j as int]@);
        }
        if !found {
            covered = false;
        }
        proof {
            if covered {
                assert forall|k: int| 0 <= k < j + 1 implies req.contains(#[trigger] pres[k]) by {
                    if k == j {
                    }
                }
            } else if !found {
                assert(!req.contains(pres[j as int]));
            }
        }
        j = j + 1;
    }
    match op {
        FilterOp::Eq => subset,
        FilterOp::EqEq => subset && covered,
        _ => !subset,
    }
}

/// A `==` mod filter that passes also passes as `=`.
pub proof fn law_mod_exact_implies_includes(present: Seq<Seq<char>>, value: Seq<char>)
    ensures
        mod_filter_spec(present, FilterOp::EqEq, value) ==> mod_filter_spec(present, FilterOp::Eq, value),
{
}

/// The mod filter reads a score's mods as a set: two scores whose mods hold
/// the same acronyms, in any order and with any repeats, pass alike.
pub proof fn law_mod_filter_set_semantics(a: Seq<Seq<char>>, b: Seq<Seq<char>>, op: FilterOp, value: Seq<char>)
    requires
        forall|x: Seq<char>| a.contains(x) == b.contains(x),
    ensures
        mod_filter_spec(a, op, value) == mod_filter_spec(b, op, value),
{
    if let Some(r) = parse_mod_spec(value) {
        assert(includes_all(a, r) == includes_all(b, r));
        assert(includes_all(r, a) == includes_all(r, b)) by {
            if includes_all(r, a) {
                assert forall|i: int| 0 <= i < b.len() implies r.contains(#[trigger] b[i]) by {
                    assert(b.contains(b[i]));
                    let j = choose|j: int| 0 <= j < a.len() && a[j] == b[i];
                    assert(r.contains(a[j]));
                }
            }
            if includes_all(r, b) {
                assert forall|i: int| 0 <= i < a.len() implies r.contains(#[trigger] a[i]) by {
                    assert(a.contains(a[i]));
                    let j = choose|j: int| 0 <= j < b.len() && b[j] == a[i];
                    assert(r.contains(b[j]));
                }
            }
        }
    }
}

/// For a value that parses, `!=` passes exactly when `=` fails; ordering
/// operators always pass.
pub proof fn law_mod_noteq_negates_eq(present: Seq<Seq<char>>, value: Seq<char>)
    ensures
        parse_mod_spec(value) is Some ==> mod_filter_spec(present, FilterOp::NotEq, value) == !mod_filter_spec(present, FilterOp::Eq, value),
        mod_filter_spec(present, FilterOp::Lt, value),
        mod_filter_spec(present, FilterOp::LtEq, value),
        mod_filter_spec(present, FilterOp::Gt, value),
        mod_filter_spec(present, FilterOp::GtEq, value),
{
}

/// What the filters read of a score: its integer statistics and its mods.
#[derive(Debug, Clone)]
pub struct FilterScore {
    pub count_miss: i64,
    pub max_combo: i64,
    pub score_value: i64,
    /// The acronyms of the score's mods.
    pub mods: Vec<String>,
}

/// A score field compared as a floating-point number.
#[derive(Debug, Clone, Copy, PartialEq, Eq, Structural)]
pub enum FloatField {
    /// Performance points; a score without them fails.
    Pp,
    /// Accuracy in percent.
    Accuracy,
}

/// A filter that compares a floating-point field, left to the caller.
#[derive(Debug, Clone)]
pub struct FloatCheck {
    pub field: FloatField,
    pub op: FilterOp,
    pub value: String,
}

/// An integer filter: its value must parse as an `i64` and compare true.
pub open spec fn int_filter(actual: i64, op: FilterOp, value: Seq<char>) -> bool {
    match parse_i64_spec(value) {
        Some(v) => op_holds(actual, v, op),
        None => false,
    }
}

/// What one parsed filter decides: `None` fails the score, `Some(None)`
/// passes it, `Some(Some(check))` leaves a floating-point comparison.
/// Unknown keys pass.
pub open spec fn filter_outcome(score: FilterScore, key: Seq<char>, op: FilterOp, value: Seq<char>) -> Option<Option<(FloatField, FilterOp, Seq<char>)>> {
    let decided = |b: bool| if b { Some(None) } else { None };
    if key == "miss"@ {
        decided(int_filter(score.count_miss, op, value))
    } else if key == "combo"@ {
        decided(int_filter(score.max_combo, op, value))
    } else if key == "pp"@ {
        Some(Some((FloatField::Pp, op, value)))
    } else if key == "score"@ {
        decided(int_filter(score.score_value, op, value))
    } else if key == "acc"@ || key == "accuracy"@ {
        Some(Some((FloatField::Accuracy, op, value)))
    } else if key == "mod"@ {
        decided(mod_filter_spec(string_views(score.mods@), op, value))
    } else {
        Some(None)
    }
}

/// What one filter token decides; `mod=` with nothing after it passes, and
/// a token that does not parse fails.
pub open spec fn token_outcome(score: FilterScore, t: Seq<char>) -> Option<Option<(FloatField, FilterOp, Seq<char>)>> {
    if t == "mod="@ {
        Some(None)
    } else {
        match parse_token_spec(t) {
            None => None,
            Some((k, op, v)) => filter_outcome(score, k, op, v),
        }
    }
}

/// Some filter fails the score.
pub open spec fn any_fails(score: FilterScore, fs: Seq<Seq<char>>) -> bool {
    exists|i: int| 0 <= i < fs.len() && (#[trigger] token_outcome(score, fs[i])) is None
}

/// The floating-point comparisons the filters leave, in order.
pub open spec fn float_checks(score: FilterScore, fs: Seq<Seq<char>>) -> Seq<(FloatField, FilterOp, Seq<char>)>
    decreases fs.len(),
{
    if fs.len() == 0 {
        Seq::empty()
    } else {
        float_checks(score, fs.drop_last()) + match token_outcome(score, fs.last()) {
            Some(Some(c)) => seq![c],
            _ => Seq::empty(),
        }
    }
}

proof fn lemma_float_checks_concat(score: FilterScore, a: Seq<Seq<char>>, b: Seq<Seq<char>>)
    ensures
        float_checks(score, a + b) == float_checks(score, a) + float_checks(score, b),
    decreases b.len(),
{
    if b.len() == 0 {
        assert(a + b =~= a);
    } else {
        lemma_float_checks_concat(score, a, b.drop_last());
        assert((a + b).drop_last() =~= a + b.drop_last());
        assert((a + b).last() == b.last());
    }
}

/// Filters combine by conjunction: no filter leaves nothing to check and
/// fails nothing; the filters of two lists one after the other fail a score
/// when either list does, and leave the checks of the first list followed by
/// those of the second.
pub proof fn law_filters_concat(score: FilterScore, a: Seq<Seq<char>>, b: Seq<Seq<char>>)
    ensures
        !any_fails(score, Seq::empty()),
        float_checks(score, Seq::empty()).len() == 0,
        any_fails(score, a + b) == (any_fails(score, a) || any_fails(score, b)),
        float_checks(score, a + b) == float_checks(score, a) + float_checks(score, b),
{
    lemma_float_checks_concat(score, a, b);
    let ab = a + b;
    if any_fails(score, ab) {
        let i = choose|i: int| 0 <= i < ab.len() && (#[trigger] token_outcome(score, ab[i])) is None;
        if i < a.len() {
            assert(ab[i] == a[i]);
        } else {
            assert(ab[i] == b[i - a.len()]);
        }
    }
    if any_fails(score, a) {
        let i = choose|i: int| 0 <= i < a.len() && (#[trigger] token_outcome(score, a[i])) is None;
        assert(ab[i] == a[i]);
    }
    if any_fails(score, b) {
        let i = choose|i: int| 0 <= i < b.len() && (#[trigger] token_outcome(score, b[i])) is None;
        assert(ab[i + a.len()] == b[i]);
    }
}

/// The views of a list of floating-point checks.
pub open spec fn check_views(v: Seq<FloatCheck>) -> Seq<(FloatField, FilterOp, Seq<char>)> {
    v.map_values(|c: FloatCheck| (c.field, c.op, c.value@))
}

fn decided(b: bool) -> (r: Option<Option<FloatCheck>>)
    ensures
        r == (if b { Some(None::<FloatCheck>) } else { None }),
{
    if b {
        Some(None)
    } else {
        None
    }
}

fn int_filter_exec(actual: i64, op: FilterOp, value: &str) -> (r: bool)
    ensures
        r == int_filter(actual, op, value@),
{
    match parse_i64(&chars_of(value)) {
        Some(v) => cmp_i64(actual, v, op),
        None => false,
    }
}

/// What one parsed filter decides about a score (see [`filter_outcome`]).
pub fn apply_filter(score: &FilterScore, key: &str, op: FilterOp, value: &str) -> (r: Option<Option<FloatCheck>>)
    ensures
        match r {
            None => filter_outcome(*score, key@, op, value@) is None,
            Some(None) => filter_outcome(*score, key@, op, value@) == Some(None::<(FloatField, FilterOp, Seq<char>)>),
            Some(Some(c)) => filter_outcome(*score, key@, op, value@) == Some(Some((c.field, c.op, c.value@))),
        },
{
    if eq_str(key, "miss") {
        decided(int_filter_exec(score.count_miss, op, value))
    } else if eq_str(key, "combo") {
        decided(int_filter_exec(score.max_combo, op, value))
    } else if eq_str(key, "pp") {
        Some(Some(FloatCheck { field: FloatField::Pp, op, value: string_of(&chars_of(value)) }))
    } else if eq_str(key, "score") {
        decided(int_filter_exec(score.score_value, op, value))
    } else if eq_str(key, "acc") || eq_str(key, "accuracy") {
        Some(Some(FloatCheck { field: FloatField::Accuracy, op, value: string_of(&chars_of(value)) }))
    } else if eq_str(key, "mod") {
        decided(apply_mod_filter(&score.mods, op, value))
    } else {
        Some(None)
    }
}

/// Decides a score against filter tokens as far as integers and mods go:
/// `None` when some filter fails it, else the floating-point comparisons
/// that must all hold for the score to pass, in the order of the filters.
pub fn plan_filters(score: &FilterScore, filters: &[String]) -> (r: Option<Vec<FloatCheck>>)
    ensures
        r is None == any_fails(*score, string_views(filters@)),
        r matches Some(v) ==> check_views(v@) == float_checks(*score, string_views(filters@)),
{
    let ghost fs = string_views(filters@);
    let mut checks: Vec<FloatCheck> = Vec::new();
    let mut i: usize = 0;
    while i < filters.len()
        invariant
            i <= filters@.len(),
            fs == string_views(filters@),
            !any_fails(*score, fs.take(i as int)),
            check_views(checks@) == float_checks(*score, fs.take(i as int)),
        decreases filters.len() - i,
    {
        let f = filters[i].as_str();
        proof {
            assert(fs[i as int] == f@);
            assert(fs.take(i as int + 1).drop_last() =~= fs.take(i as int));
            assert(fs.take(i as int + 1).last() == f@);
        }
        let outcome = if eq_str(f, "mod=") {
            Some(None)
        } else {
            match parse_filter_token(f) {
                None => None,
                Some((k, op, v)) => apply_filter(score, k.as_str(), op, v.as_str()),
            }
        };
        match outcome {
            None => {
                proof {
                    assert(token_outcome(*score, fs[i as int]) is None);
                }
                return None;
            },
            Some(None) => {},
            Some(Some(c)) => {
                proof {
                    assert(check_views(checks@.push(c)) =~= check_views(checks@).push((c.field, c.op, c.value@)));
                }
                checks.push(c);
            },
        }
        proof {
            assert(check_views(checks@) =~= float_checks(*score, fs.take(i as int + 1)));
            assert forall|j: int| 0 <= j < i + 1 implies (#[trigger] token_outcome(*score, fs.take(i as int + 1)[j])) is Some by {
                if j < i {
                    assert(fs.take(i as int + 1)[j] == fs.take(i as int)[j]);
                }
            }
        }
        i = i + 1;
    }
    proof {
        assert(fs.take(fs.len() as int) =~= fs);
    }
    Some(checks)
}

/// An unknown key never fails a score.
pub proof fn law_unknown_key_passes(score: FilterScore, key: Seq<char>, op: FilterOp, value: Seq<char>)
    requires
        key != "miss"@,
        key != "combo"@,
        key != "pp"@,
        key != "score"@,
        key != "acc"@,
        key != "accuracy"@,
        key != "mod"@,
    ensures
        filter_outcome(score, key, op, value) == Some(None::<(FloatField, FilterOp, Seq<char>)>),
{
}

/// Filters combine by conjunction: a list fails a score exactly when one
/// of its filters does, so adding filters never lets more scores through.
pub proof fn law_filters_conjunction(score: FilterScore, fs: Seq<Seq<char>>, more: Seq<Seq<char>>)
    ensures
        any_fails(score, fs) ==> any_fails(score, fs + more),
        any_fails(score, more) ==> any_fails(score, fs + more),
{
    if any_fails(score, fs) {
        let i = choose|i: int| 0 <= i < fs.len() && (#[trigger] token_outcome(score, fs[i])) is None;
        assert((fs + more)[i] == fs[i]);
    }
    if any_fails(score, more) {
        let i = choose|i: int| 0 <= i < more.len() && (#[trigger] token_outcome(score, more[i])) is None;
        assert((fs + more)[fs.len() + i] == more[i]);
    }
}

} // verus!
