//! Character-sequence helpers shared by the parsers: conversions between
//! `String` and `Vec<char>`, substring search, Unicode whitespace trimming,
//! splitting, and decimal integers.

use vstd::prelude::*;

verus! {

/// Appends one character to a `String`.
/// Trusted: `String::push`; std documents that it appends `c` at the end.
#[verifier::external_body]
pub(crate) fn string_push(s: &mut String, c: char)
    ensures
        final(s)@ == old(s)@.push(c),
{
    s.push(c);
}

/// The characters of a string slice, in order.
pub fn chars_of(s: &str) -> (v: Vec<char>)
    ensures
        v@ == s@,
{
    let mut v: Vec<char> = Vec::new();
    for c in it: s.chars()
        invariant
            v@ == it.seq().take(it.index() as int),
            it.seq() == s@,
    {
        v.push(c);
    }
    v
}

/// Builds a `String` holding exactly the given characters.
pub fn string_of(v: &Vec<char>) -> (s: String)
    ensures
        s@ == v@,
{
    let mut s = String::new();
    let mut i: usize = 0;
    while i < v.len()
        invariant
            i <= v.len(),
            s@ == v@.take(i as int),
        decreases v.len() - i,
    {
        string_push(&mut s, v[i]);
        assert(v@.take(i as int).push(v@[i as int]) =~= v@.take(i as int + 1));
        i = i + 1;
    }
    assert(v@.take(v.len() as int) =~= v@);
    s
}

} // verus!

verus! {

// ---------------------------------------------------------------------------
// Substring search
// ---------------------------------------------------------------------------

/// `pat` occurs in `s` starting at character index `i`.
pub open spec fn occurs_at(s: Seq<char>, pat: Seq<char>, i: int) -> bool {
    0 <= i && i + pat.len() <= s.len() && s.subrange(i, i + pat.len()) == pat
}

/// First occurrence of `pat` in `s` at or after index `i`.
pub open spec fn find_from(s: Seq<char>, pat: Seq<char>, i: int) -> Option<int>
    decreases s.len() + 1 - i,
{
    if i < 0 || i + pat.len() > s.len() {
        None
    } else if occurs_at(s, pat, i) {
        Some(i)
    } else {
        find_from(s, pat, i + 1)
    }
}

/// First occurrence of `pat` in `s` (what `str::find` reports, counted in characters).
pub open spec fn find_spec(s: Seq<char>, pat: Seq<char>) -> Option<int> {
    find_from(s, pat, 0)
}

/// `find_from` returns the smallest occurrence at or after `i`.
pub proof fn lemma_find_from(s: Seq<char>, pat: Seq<char>, i: int)
    requires
        0 <= i,
    ensures
        find_from(s, pat, i) matches Some(j) ==> i <= j && occurs_at(s, pat, j) && forall|k: int|
            i <= k < j ==> !occurs_at(s, pat, k),
        find_from(s, pat, i) is None ==> forall|k: int| i <= k ==> !occurs_at(s, pat, k),
    decreases s.len() + 1 - i,
{
    if i + pat.len() > s.len() {
    } else if occurs_at(s, pat, i) {
    } else {
        lemma_find_from(s, pat, i + 1);
    }
}

/// `find_spec` in closed form.
pub proof fn lemma_find_spec(s: Seq<char>, pat: Seq<char>)
    ensures
        find_spec(s, pat) matches Some(j) ==> occurs_at(s, pat, j) && forall|k: int|
            0 <= k < j ==> !occurs_at(s, pat, k),
        find_spec(s, pat) is None ==> forall|k: int| 0 <= k ==> !occurs_at(s, pat, k),
{
    lemma_find_from(s, pat, 0);
}

/// Whether `pat` occurs in `s` at index `i` (exec).
pub fn matches_at(s: &Vec<char>, pat: &Vec<char>, i: usize) -> (b: bool)
    ensures
        b == occurs_at(s@, pat@, i as int),
{
    if pat.len() > s.len() || i > s.len() - pat.len() {
        return false;
    }
    let mut k: usize = 0;
    while k < pat.len()
        invariant
            k <= pat.len(),
            i + pat.len() <= s.len(),
            forall|m: int| 0 <= m < k ==> s@[i + m] == pat@[m],
        decreases pat.len() - k,
    {
        if s[i + k] != pat[k] {
            assert(s@.subrange(i as int, i + pat.len())[k as int] != pat@[k as int]);
            return false;
        }
        k = k + 1;
    }
    assert(s@.subrange(i as int, i + pat.len()) =~= pat@);
    true
}

/// First occurrence of `pat` in `s`, as a character index.
pub fn find(s: &Vec<char>, pat: &Vec<char>) -> (r: Option<usize>)
    ensures
        match r {
            Some(i) => find_spec(s@, pat@) == Some(i as int),
            None => find_spec(s@, pat@) is None,
        },
{
    if pat.len() > s.len() {
        return None;
    }
    let last = s.len() - pat.len();
    let mut i: usize = 0;
    while i <= last
        invariant
            last + pat.len() == s.len(),
            i <= last + 1,
            find_spec(s@, pat@) == find_from(s@, pat@, i as int),
        decreases last + 1 - i,
    {
        if matches_at(s, pat, i) {
            return Some(i);
        }
        if i == last {
            assert(find_from(s@, pat@, i as int + 1) is None);
            return None;
        }
        i = i + 1;
    }
    None
}

/// Whether `pat` occurs anywhere in `s`.
pub fn contains(s: &Vec<char>, pat: &Vec<char>) -> (b: bool)
    ensures
        b == (find_spec(s@, pat@) is Some),
{
    find(s, pat).is_some()
}

/// Whether `s` starts with `pat`.
pub fn starts_with(s: &Vec<char>, pat: &Vec<char>) -> (b: bool)
    ensures
        b == occurs_at(s@, pat@, 0),
{
    matches_at(s, pat, 0)
}

/// The characters of `v` in `[from, to)`.
pub fn slice_chars(v: &Vec<char>, from: usize, to: usize) -> (r: Vec<char>)
    requires
        from <= to <= v.len(),
    ensures
        r@ == v@.subrange(from as int, to as int),
{
    let mut r: Vec<char> = Vec::new();
    let mut i = from;
    while i < to
        invariant
            from <= i <= to <= v.len(),
            r@ == v@.subrange(from as int, i as int),
        decreases to - i,
    {
        r.push(v[i]);
        i = i + 1;
    }
    r
}

// ---------------------------------------------------------------------------
// Whitespace
// ---------------------------------------------------------------------------

/// The Unicode `White_Space` property, which `char::is_whitespace` reports.
pub open spec fn is_ws(c: char) -> bool {
    let u = c as u32;
    (9 <= u && u <= 13) || u == 32 || u == 0x85 || u == 0xa0 || u == 0x1680 || (0x2000 <= u && u
        <= 0x200a) || u == 0x2028 || u == 0x2029 || u == 0x202f || u == 0x205f || u == 0x3000
}

/// Exec form of [`is_ws`].
pub fn is_whitespace(c: char) -> (b: bool)
    ensures
        b == is_ws(c),
{
    let u = c as u32;
    (9 <= u && u <= 13) || u == 32 || u == 0x85 || u == 0xa0 || u == 0x1680 || (0x2000 <= u && u
        <= 0x200a) || u == 0x2028 || u == 0x2029 || u == 0x202f || u == 0x205f || u == 0x3000
}

/// Number of leading whitespace characters.
pub open spec fn lead_ws(s: Seq<char>) -> nat
    decreases s.len(),
{
    if s.len() > 0 && is_ws(s[0]) {
        1 + lead_ws(s.subrange(1, s.len() as int))
    } else {
        0
    }
}

/// Number of trailing whitespace characters.
pub open spec fn trail_ws(s: Seq<char>) -> nat
    decreases s.len(),
{
    if s.len() > 0 && is_ws(s[s.len() - 1]) {
        1 + trail_ws(s.subrange(0, s.len() - 1))
    } else {
        0
    }
}

/// `s` without leading and trailing whitespace (`str::trim`).
pub open spec fn trim_spec(s: Seq<char>) -> Seq<char> {
    let a = lead_ws(s) as int;
    let rest = s.subrange(a, s.len() as int);
    rest.subrange(0, rest.len() - trail_ws(rest))
}

proof fn lemma_lead_ws_bound(s: Seq<char>)
    ensures
        lead_ws(s) <= s.len(),
        forall|k: int| 0 <= k < lead_ws(s) ==> is_ws(s[k]),
        lead_ws(s) < s.len() ==> !is_ws(s[lead_ws(s) as int]),
    decreases s.len(),
{
    if s.len() > 0 && is_ws(s[0]) {
        let t = s.subrange(1, s.len() as int);
        lemma_lead_ws_bound(t);
        assert forall|k: int| 0 <= k < lead_ws(s) implies is_ws(s[k]) by {
            if k > 0 {
                assert(s[k] == t[k - 1]);
            }
        }
    }
}

proof fn lemma_trail_ws_bound(s: Seq<char>)
    ensures
        trail_ws(s) <= s.len(),
        forall|k: int| s.len() - trail_ws(s) <= k < s.len() ==> is_ws(s[k]),
        trail_ws(s) < s.len() ==> !is_ws(s[s.len() - 1 - trail_ws(s)]),
    decreases s.len(),
{
    if s.len() > 0 && is_ws(s[s.len() - 1]) {
        let t = s.subrange(0, s.len() - 1);
        lemma_trail_ws_bound(t);
        assert forall|k: int| s.len() - trail_ws(s) <= k < s.len() implies is_ws(s[k]) by {
            if k < s.len() - 1 {
                assert(s[k] == t[k]);
            }
        }
    }
}

/// `lead_ws` is determined by the first non-whitespace position.
proof fn lemma_lead_ws_char(s: Seq<char>, a: int)
    requires
        0 <= a <= s.len(),
        forall|k: int| 0 <= k < a ==> is_ws(s[k]),
        a < s.len() ==> !is_ws(s[a]),
    ensures
        lead_ws(s) == a,
    decreases s.len(),
{
    if s.len() > 0 && is_ws(s[0]) {
        let t = s.subrange(1, s.len() as int);
        assert forall|k: int| 0 <= k < a - 1 implies is_ws(t[k]) by {
            assert(t[k] == s[k + 1]);
        }
        if a - 1 < t.len() {
            assert(t[a - 1] == s[a]);
        }
        lemma_lead_ws_char(t, a - 1);
    }
}

/// `trail_ws` is determined by the last non-whitespace position.
proof fn lemma_trail_ws_char(s: Seq<char>, b: int)
    requires
        0 <= b <= s.len(),
        forall|k: int| b <= k < s.len() ==> is_ws(s[k]),
        b > 0 ==> !is_ws(s[b - 1]),
    ensures
        trail_ws(s) == s.len() - b,
    decreases s.len(),
{
    if s.len() > 0 && is_ws(s[s.len() - 1]) {
        let t = s.subrange(0, s.len() - 1);
        assert forall|k: int| b <= k < t.len() implies is_ws(t[k]) by {
            assert(t[k] == s[k]);
        }
        if b > 0 {
            assert(t[b - 1] == s[b - 1]);
        }
        lemma_trail_ws_char(t, b);
    }
}

/// `s` without leading and trailing whitespace.
pub fn trim(s: &Vec<char>) -> (r: Vec<char>)
    ensures
        r@ == trim_spec(s@),
{
    let mut a: usize = 0;
    while a < s.len() && is_whitespace(s[a])
        invariant
            a <= s.len(),
            forall|k: int| 0 <= k < a ==> is_ws(s@[k]),
        decreases s.len() - a,
    {
        a = a + 1;
    }
    proof {
        lemma_lead_ws_char(s@, a as int);
    }
    let mut b: usize = s.len();
    while b > a && is_whitespace(s[b - 1])
        invariant
            a <= b <= s.len(),
            forall|k: int| b <= k < s.len() ==> is_ws(s@[k]),
        decreases b,
    {
        b = b - 1;
    }
    proof {
        let rest = s@.subrange(a as int, s.len() as int);
        assert forall|k: int| b - a <= k < rest.len() implies is_ws(rest[k]) by {
            assert(rest[k] == s@[a + k]);
        }
        if b > a {
            assert(rest[b - a - 1] == s@[b - 1]);
        }
        lemma_trail_ws_char(rest, b - a);
        assert(rest.subrange(0, rest.len() - trail_ws(rest)) =~= s@.subrange(a as int, b as int));
    }
    slice_chars(s, a, b)
}

} // verus!

verus! {

// ---------------------------------------------------------------------------
// Decimal integers
// ---------------------------------------------------------------------------

/// The ASCII digit for `d` (0..=9).
pub open spec fn digit_char(d: int) -> char {
    if d == 0 { '0' }
    else if d == 1 { '1' }
    else if d == 2 { '2' }
    else if d == 3 { '3' }
    else if d == 4 { '4' }
    else if d == 5 { '5' }
    else if d == 6 { '6' }
    else if d == 7 { '7' }
    else if d == 8 { '8' }
    else { '9' }
}

/// Whether `c` is an ASCII decimal digit.
pub open spec fn is_digit(c: char) -> bool {
    '0' <= c && c <= '9'
}

/// The value of an ASCII decimal digit.
pub open spec fn digit_value(c: char) -> int {
    (c as u32) - ('0' as u32)
}

/// Decimal digits of `n`, most significant first, without leading zeros.
pub open spec fn dec_digits(n: nat) -> Seq<char>
    decreases n,
{
    if n < 10 {
        seq![digit_char(n as int)]
    } else {
        dec_digits(n / 10).push(digit_char((n % 10) as int))
    }
}

/// `i64::to_string`: an optional `-` followed by the decimal digits of the magnitude.
pub open spec fn int_to_dec(x: int) -> Seq<char> {
    if x < 0 {
        seq!['-'] + dec_digits((-x) as nat)
    } else {
        dec_digits(x as nat)
    }
}

fn digit_to_char(d: u64) -> (c: char)
    requires
        d < 10,
    ensures
        c == digit_char(d as int),
{
    if d == 0 { '0' }
    else if d == 1 { '1' }
    else if d == 2 { '2' }
    else if d == 3 { '3' }
    else if d == 4 { '4' }
    else if d == 5 { '5' }
    else if d == 6 { '6' }
    else if d == 7 { '7' }
    else if d == 8 { '8' }
    else { '9' }
}

/// Decimal digits of an unsigned integer.
pub fn u64_digits(n: u64) -> (v: Vec<char>)
    ensures
        v@ == dec_digits(n as nat),
    decreases n,
{
    if n < 10 {
        let mut v = Vec::new();
        v.push(digit_to_char(n));
        v
    } else {
        let mut v = u64_digits(n / 10);
        v.push(digit_to_char(n % 10));
        v
    }
}

/// Decimal text of a signed integer, as `i64::to_string` writes it.
pub fn i64_chars(x: i64) -> (v: Vec<char>)
    ensures
        v@ == int_to_dec(x as int),
{
    if x < 0 {
        let mag: u64 = if x == i64::MIN {
            9223372036854775808u64
        } else {
            (-x) as u64
        };
        let digits = u64_digits(mag);
        let mut v: Vec<char> = Vec::new();
        v.push('-');
        let mut i: usize = 0;
        while i < digits.len()
            invariant
                i <= digits.len(),
                v@ == seq!['-'] + digits@.take(i as int),
            decreases digits.len() - i,
        {
            v.push(digits[i]);
            assert(digits@.take(i as int).push(digits@[i as int]) =~= digits@.take(i as int + 1));
            i = i + 1;
        }
        assert(digits@.take(digits.len() as int) =~= digits@);
        v
    } else {
        u64_digits(x as u64)
    }
}

/// Decimal text of a signed integer as a `String`.
pub fn i64_to_string(x: i64) -> (s: String)
    ensures
        s@ == int_to_dec(x as int),
{
    string_of(&i64_chars(x))
}

/// Value of a run of decimal digits.
pub open spec fn digits_value(s: Seq<char>) -> int
    decreases s.len(),
{
    if s.len() == 0 {
        0
    } else {
        digits_value(s.drop_last()) * 10 + digit_value(s.last())
    }
}

/// Every character is an ASCII digit.
pub open spec fn all_digits(s: Seq<char>) -> bool {
    forall|k: int| 0 <= k < s.len() ==> is_digit(s[k])
}

/// What `str::parse::<i64>` accepts: an optional `+` or `-`, then one or more
/// ASCII digits, with the value inside the range of `i64`.
pub open spec fn parse_i64_spec(s: Seq<char>) -> Option<i64> {
    if s.len() == 0 {
        None
    } else {
        let neg = s[0] == '-';
        let body = if s[0] == '-' || s[0] == '+' {
            s.subrange(1, s.len() as int)
        } else {
            s
        };
        if body.len() == 0 || !all_digits(body) {
            None
        } else {
            let v = if neg {
                -digits_value(body)
            } else {
                digits_value(body)
            };
            if i64::MIN <= v <= i64::MAX {
                Some(v as i64)
            } else {
                None
            }
        }
    }
}

proof fn lemma_digits_value_nonneg(s: Seq<char>)
    requires
        all_digits(s),
    ensures
        digits_value(s) >= 0,
    decreases s.len(),
{
    if s.len() > 0 {
        lemma_digits_value_nonneg(s.drop_last());
    }
}

/// A longer run of digits is worth at least as much as any of its prefixes.
proof fn lemma_digits_value_prefix(s: Seq<char>, i: int)
    requires
        all_digits(s),
        0 <= i <= s.len(),
    ensures
        digits_value(s.take(i)) <= digits_value(s),
    decreases s.len(),
{
    if i < s.len() {
        assert(all_digits(s.drop_last()));
        assert(s.drop_last().take(i) =~= s.take(i));
        lemma_digits_value_prefix(s.drop_last(), i);
        lemma_digits_value_nonneg(s.drop_last());
    } else {
        assert(s.take(i) =~= s);
    }
}

/// `str::parse::<i64>`, written out.
pub fn parse_i64(s: &Vec<char>) -> (r: Option<i64>)
    ensures
        r == parse_i64_spec(s@),
{
    if s.len() == 0 {
        return None;
    }
    let neg = s[0] == '-';
    let start: usize = if s[0] == '-' || s[0] == '+' {
        1
    } else {
        0
    };
    let ghost body = s@.subrange(start as int, s.len() as int);
    assert(body =~= (if s@[0] == '-' || s@[0] == '+' {
        s@.subrange(1, s@.len() as int)
    } else {
        s@
    }));
    if start == s.len() {
        return None;
    }
    let limit: u128 = 9223372036854775808u128;
    let mut acc: u128 = 0;
    let mut i = start;
    while i < s.len()
        invariant
            start <= i <= s.len(),
            s.len() > 0,
            neg == (s@[0] == '-'),
            body == (if s@[0] == '-' || s@[0] == '+' {
                s@.subrange(1, s@.len() as int)
            } else {
                s@
            }),
            body == s@.subrange(start as int, s.len() as int),
            acc as int == digits_value(body.take(i - start)),
            acc <= limit,
            limit == 9223372036854775808u128,
            all_digits(body.take(i - start)),
        decreases s.len() - i,
    {
        let c = s[i];
        if !('0' <= c && c <= '9') {
            assert(body[i - start] == c);
            assert(!is_digit(body[i - start]));
            return None;
        }
        let d = (c as u32 - '0' as u32) as u128;
        assert(body.take(i - start + 1).drop_last() =~= body.take(i - start));
        assert(body.take(i - start + 1).last() == c);
        assert(acc * 10 <= 92233720368547758080) by (nonlinear_arith)
            requires
                acc <= 9223372036854775808,
        ;
        acc = acc * 10 + d;
        assert(all_digits(body.take(i - start + 1))) by {
            assert forall|k: int| 0 <= k < i - start + 1 implies is_digit(
                #[trigger] body.take(i - start + 1)[k],
            ) by {
                if k < i - start {
                    assert(body.take(i - start + 1)[k] == body.take(i - start)[k]);
                }
            }
        }
        if acc > limit {
            proof {
                if all_digits(body) {
                    lemma_digits_value_prefix(body, i - start + 1);
                }
            }
            return None;
        }
        i = i + 1;
    }
    assert(body.take(i - start) =~= body);
    if neg {
        if acc == limit {
            Some(i64::MIN)
        } else {
            Some(-(acc as i64))
        }
    } else {
        if acc == limit {
            None
        } else {
            Some(acc as i64)
        }
    }
}

proof fn lemma_digit_char(k: int)
    requires
        0 <= k < 10,
    ensures
        is_digit(digit_char(k)),
        digit_value(digit_char(k)) == k,
{
}

/// Decimal text read back gives the number written.
pub proof fn lemma_dec_digits_roundtrip(n: nat)
    ensures
        all_digits(dec_digits(n)),
        digits_value(dec_digits(n)) == n,
        dec_digits(n).len() > 0,
        dec_digits(n)[0] != '-' && dec_digits(n)[0] != '+',
    decreases n,
{
    if n < 10 {
        lemma_digit_char(n as int);
        assert(dec_digits(n).drop_last() =~= Seq::<char>::empty());
        assert(digits_value(Seq::<char>::empty()) == 0);
    } else {
        lemma_digit_char((n % 10) as int);
        lemma_dec_digits_roundtrip(n / 10);
        let d = dec_digits(n / 10);
        let e = d.push(digit_char((n % 10) as int));
        assert(e.drop_last() =~= d);
        assert(dec_digits(n) == e);
        assert(digits_value(e) == digits_value(d) * 10 + digit_value(e.last()));
        assert(all_digits(e)) by {
            assert forall|k: int| 0 <= k < e.len() implies is_digit(#[trigger] e[k]) by {
                if k < d.len() {
                    assert(e[k] == d[k]);
                }
            }
        }
    }
}

/// Parsing the text that `i64_to_string` writes gives back the number.
pub proof fn lemma_i64_text_roundtrip(x: i64)
    ensures
        parse_i64_spec(int_to_dec(x as int)) == Some(x),
{
    if x < 0 {
        let m = (-(x as int)) as nat;
        lemma_dec_digits_roundtrip(m);
        let t = int_to_dec(x as int);
        assert(t.subrange(1, t.len() as int) =~= dec_digits(m));
    } else {
        lemma_dec_digits_roundtrip(x as nat);
    }
}

// ---------------------------------------------------------------------------
// Splitting and case
// ---------------------------------------------------------------------------

/// Index of the first character of `s` that is `sep`.
pub open spec fn first_sep(s: Seq<char>, sep: char) -> Option<int>
    decreases s.len(),
{
    if s.len() == 0 {
        None
    } else if s[0] == sep {
        Some(0)
    } else {
        match first_sep(s.subrange(1, s.len() as int), sep) {
            Some(i) => Some(i + 1),
            None => None,
        }
    }
}

/// `str::split(sep)` with a single separator character: the pieces between separators.
pub open spec fn split_spec(s: Seq<char>, sep: char) -> Seq<Seq<char>>
    decreases s.len(),
{
    match first_sep(s, sep) {
        Some(i) => if 0 <= i < s.len() {
            seq![s.take(i)] + split_spec(s.subrange(i + 1, s.len() as int), sep)
        } else {
            seq![s]
        },
        None => seq![s],
    }
}

proof fn lemma_first_sep(s: Seq<char>, sep: char)
    ensures
        first_sep(s, sep) matches Some(i) ==> 0 <= i < s.len() && s[i] == sep && forall|k: int|
            0 <= k < i ==> s[k] != sep,
        first_sep(s, sep) is None ==> forall|k: int| 0 <= k < s.len() ==> s[k] != sep,
    decreases s.len(),
{
    if s.len() > 0 && s[0] != sep {
        let t = s.subrange(1, s.len() as int);
        lemma_first_sep(t, sep);
        assert forall|k: int| 1 <= k < s.len() implies s[k] == t[k - 1] by {}
    }
}

proof fn lemma_first_sep_char(s: Seq<char>, sep: char, i: int)
    requires
        0 <= i <= s.len(),
        forall|k: int| 0 <= k < i ==> s[k] != sep,
        i < s.len() ==> s[i] == sep,
    ensures
        first_sep(s, sep) == (if i < s.len() { Some(i) } else { None::<int> }),
    decreases s.len(),
{
    if s.len() > 0 && s[0] != sep {
        let t = s.subrange(1, s.len() as int);
        assert forall|k: int| 0 <= k < i - 1 implies t[k] != sep by {
            assert(t[k] == s[k + 1]);
        }
        if i - 1 < t.len() {
            assert(t[i - 1] == s[i]);
        }
        lemma_first_sep_char(t, sep, i - 1);
    }
}

/// The piece of `s` before the first `sep` (all of `s` when there is none):
/// the first item that `str::split(sep)` yields.
pub fn before_sep(s: &Vec<char>, sep: char) -> (r: Vec<char>)
    ensures
        r@ == split_spec(s@, sep)[0],
{
    let mut i: usize = 0;
    while i < s.len() && s[i] != sep
        invariant
            i <= s.len(),
            forall|k: int| 0 <= k < i ==> s@[k] != sep,
        decreases s.len() - i,
    {
        i = i + 1;
    }
    proof {
        lemma_first_sep_char(s@, sep, i as int);
        if i == s.len() {
            assert(s@.take(i as int) =~= s@);
        }
    }
    slice_chars(s, 0, i)
}

/// All pieces of `s` between occurrences of `sep`, as `str::split(sep)` yields them.
pub fn split_on(s: &Vec<char>, sep: char) -> (r: Vec<Vec<char>>)
    ensures
        r@.len() == split_spec(s@, sep).len(),
        forall|k: int| 0 <= k < r@.len() ==> #[trigger] r@[k]@ == split_spec(s@, sep)[k],
{
    let mut r: Vec<Vec<char>> = Vec::new();
    let mut start: usize = 0;
    let mut i: usize = 0;
    let ghost mut done: Seq<Seq<char>> = Seq::empty();
    assert(s@.subrange(0, s.len() as int) =~= s@);
    assert(done + split_spec(s@, sep) =~= split_spec(s@, sep));
    while i < s.len()
        invariant
            start <= i <= s.len(),
            forall|k: int| start <= k < i ==> s@[k] != sep,
            r@.len() == done.len(),
            forall|k: int| 0 <= k < r@.len() ==> #[trigger] r@[k]@ == done[k],
            split_spec(s@, sep) == done + split_spec(s@.subrange(start as int, s.len() as int), sep),
        decreases s.len() - i,
    {
        if s[i] == sep {
            let piece = slice_chars(s, start, i);
            proof {
                let rest = s@.subrange(start as int, s.len() as int);
                assert forall|k: int| 0 <= k < i - start implies rest[k] != sep by {
                    assert(rest[k] == s@[start + k]);
                }
                assert(rest[i - start] == s@[i as int]);
                lemma_first_sep_char(rest, sep, i - start);
                assert(rest.take(i - start) =~= piece@);
                assert(rest.subrange(i - start + 1, rest.len() as int) =~= s@.subrange(
                    i + 1,
                    s.len() as int,
                ));
                assert(split_spec(rest, sep) == seq![piece@] + split_spec(
                    s@.subrange(i + 1, s.len() as int),
                    sep,
                ));
                assert(done + split_spec(rest, sep) =~= done.push(piece@) + split_spec(
                    s@.subrange(i + 1, s.len() as int),
                    sep,
                ));
                done = done.push(piece@);
            }
            r.push(piece);
            start = i + 1;
        }
        i = i + 1;
    }
    let piece = slice_chars(s, start, s.len());
    proof {
        let rest = s@.subrange(start as int, s.len() as int);
        assert forall|k: int| 0 <= k < rest.len() implies rest[k] != sep by {
            assert(rest[k] == s@[start + k]);
        }
        lemma_first_sep_char(rest, sep, rest.len() as int);
        assert(rest =~= piece@);
        done = done.push(piece@);
    }
    r.push(piece);
    r
}

/// ASCII letters compare equal ignoring case (`u8::eq_ignore_ascii_case` on chars).
pub open spec fn ascii_lower(c: char) -> char {
    if 'A' <= c && c <= 'Z' {
        ((c as u32) + 32) as char
    } else {
        c
    }
}

} // verus!

verus! {

/// Whether two character vectors hold the same characters.
pub fn chars_eq(a: &Vec<char>, b: &Vec<char>) -> (r: bool)
    ensures
        r == (a@ == b@),
{
    if a.len() != b.len() {
        return false;
    }
    let mut i: usize = 0;
    while i < a.len()
        invariant
            i <= a.len(),
            a.len() == b.len(),
            forall|k: int| 0 <= k < i ==> a@[k] == b@[k],
        decreases a.len() - i,
    {
        if a[i] != b[i] {
            return false;
        }
        i = i + 1;
    }
    assert(a@ =~= b@);
    true
}

/// Whether a string holds exactly the characters of `lit`.
pub fn eq_str(s: &str, lit: &str) -> (r: bool)
    ensures
        r == (s@ == lit@),
{
    chars_eq(&chars_of(s), &chars_of(lit))
}

/// A `String` with the characters of `lit`.
pub fn owned(lit: &str) -> (s: String)
    ensures
        s@ == lit@,
{
    string_of(&chars_of(lit))
}

} // verus!

verus! {

/// Appends the characters of `src` to `dst`.
pub fn push_all(dst: &mut Vec<char>, src: &Vec<char>)
    ensures
        final(dst)@ == old(dst)@ + src@,
{
    let mut i: usize = 0;
    while i < src.len()
        invariant
            i <= src.len(),
            dst@ == old(dst)@ + src@.take(i as int),
        decreases src.len() - i,
    {
        dst.push(src[i]);
        assert(src@.take(i as int).push(src@[i as int]) =~= src@.take(i as int + 1));
        assert(old(dst)@ + src@.take(i as int + 1) =~= (old(dst)@ + src@.take(i as int)).push(src@[i as int]));
        i = i + 1;
    }
    assert(src@.take(src.len() as int) =~= src@);
}

/// Appends the characters of `s` to `dst`.
pub fn push_str(dst: &mut Vec<char>, s: &str)
    ensures
        final(dst)@ == old(dst)@ + s@,
{
    let v = chars_of(s);
    push_all(dst, &v);
}

/// Lines joined with a newline between each two (`[..].join("\n")`).
pub open spec fn join_lines(lines: Seq<Seq<char>>) -> Seq<char>
    decreases lines.len(),
{
    if lines.len() == 0 {
        Seq::empty()
    } else if lines.len() == 1 {
        lines[0]
    } else {
        join_lines(lines.drop_last()) + seq!['\n'] + lines.last()
    }
}

/// Joins lines with `\n` between them.
pub fn join_with_newlines(lines: &Vec<Vec<char>>) -> (r: Vec<char>)
    ensures
        r@ == join_lines(lines@.map_values(|l: Vec<char>| l@)),
{
    let ghost views = lines@.map_values(|l: Vec<char>| l@);
    let mut r: Vec<char> = Vec::new();
    let mut i: usize = 0;
    while i < lines.len()
        invariant
            i <= lines.len(),
            views == lines@.map_values(|l: Vec<char>| l@),
            r@ == join_lines(views.take(i as int)),
        decreases lines.len() - i,
    {
        assert(views.take(i as int + 1).drop_last() =~= views.take(i as int));
        assert(views.take(i as int + 1).last() == lines@[i as int]@);
        if i > 0 {
            r.push('\n');
        } else {
            assert(views.take(1) =~= seq![lines@[0]@]);
        }
        push_all(&mut r, &lines[i]);
        i = i + 1;
    }
    assert(views.take(lines.len() as int) =~= views);
    r
}

} // verus!

verus! {

/// Lexicographic order on characters (by code point), the order `str`'s `Ord` gives.
pub open spec fn seq_lt(a: Seq<char>, b: Seq<char>) -> bool
    decreases a.len(),
{
    if a.len() == 0 {
        b.len() > 0
    } else if b.len() == 0 {
        false
    } else if a[0] != b[0] {
        a[0] < b[0]
    } else {
        seq_lt(a.drop_first(), b.drop_first())
    }
}

/// The lexicographic order is a strict total order.
pub proof fn lemma_seq_lt_order(a: Seq<char>, b: Seq<char>)
    ensures
        !(seq_lt(a, b) && seq_lt(b, a)),
        a != b ==> seq_lt(a, b) || seq_lt(b, a),
    decreases a.len(),
{
    if a.len() > 0 && b.len() > 0 {
        lemma_seq_lt_order(a.drop_first(), b.drop_first());
        if a[0] == b[0] && a != b {
            assert(a =~= seq![a[0]] + a.drop_first());
            assert(b =~= seq![b[0]] + b.drop_first());
        }
    } else if a.len() == 0 && b.len() == 0 {
        assert(a =~= b);
    }
}

/// The lexicographic order is transitive.
pub proof fn lemma_seq_lt_trans(a: Seq<char>, b: Seq<char>, c: Seq<char>)
    requires
        seq_lt(a, b),
        seq_lt(b, c),
    ensures
        seq_lt(a, c),
    decreases a.len(),
{
    if a.len() > 0 && b.len() > 0 && c.len() > 0 && a[0] == b[0] && b[0] == c[0] {
        lemma_seq_lt_trans(a.drop_first(), b.drop_first(), c.drop_first());
    }
}

/// Whether `a` comes before `b` in lexicographic order.
pub fn chars_lt(a: &Vec<char>, b: &Vec<char>) -> (r: bool)
    ensures
        r == seq_lt(a@, b@),
{
    let mut i: usize = 0;
    assert(a@.skip(0) =~= a@);
    assert(b@.skip(0) =~= b@);
    while i < a.len() && i < b.len()
        invariant
            i <= a.len(),
            i <= b.len(),
            a@.take(i as int) == b@.take(i as int),
            seq_lt(a@, b@) == seq_lt(a@.skip(i as int), b@.skip(i as int)),
        decreases a.len() - i,
    {
        assert(a@.skip(i as int).drop_first() =~= a@.skip(i as int + 1));
        assert(b@.skip(i as int).drop_first() =~= b@.skip(i as int + 1));
        if a[i] != b[i] {
            return a[i] < b[i];
        }
        assert(a@.take(i as int + 1) =~= a@.take(i as int).push(a@[i as int]));
        assert(b@.take(i as int + 1) =~= b@.take(i as int).push(b@[i as int]));
        i = i + 1;
    }
    i < b.len()
}

} // verus!

verus! {

/// `str::replace`: every occurrence of `pat`, found left to right without
/// overlap, replaced by `with` (for a pattern that is not empty).
pub open spec fn replace_spec(s: Seq<char>, pat: Seq<char>, with: Seq<char>) -> Seq<char>
    decreases s.len(),
{
    if pat.len() == 0 {
        s
    } else {
        match find_spec(s, pat) {
            None => s,
            Some(i) => if 0 <= i && i + pat.len() <= s.len() {
                s.take(i) + with + replace_spec(s.skip(i + pat.len()), pat, with)
            } else {
                s
            },
        }
    }
}

/// Replaces every occurrence of `pat` in `s` by `with` (see [`replace_spec`]).
pub fn replace_all(s: &Vec<char>, pat: &Vec<char>, with: &Vec<char>) -> (r: Vec<char>)
    requires
        pat@.len() > 0,
    ensures
        r@ == replace_spec(s@, pat@, with@),
{
    let mut out: Vec<char> = Vec::new();
    let mut rest = slice_chars(s, 0, s.len());
    proof {
        assert(rest@ =~= s@);
        assert(replace_spec(s@, pat@, with@) == Seq::<char>::empty() + replace_spec(rest@, pat@, with@));
    }
    loop
        invariant
            pat@.len() > 0,
            replace_spec(s@, pat@, with@) == out@ + replace_spec(rest@, pat@, with@),
        decreases rest@.len(),
    {
        match find(&rest, pat) {
            None => {
                push_all(&mut out, &rest);
                return out;
            },
            Some(i) => {
                proof {
                    lemma_find_spec(rest@, pat@);
                    assert(occurs_at(rest@, pat@, i as int));
                }
                let rl = rest.len();
                let pl = pat.len();
                assert(i + pl <= rl);
                let before = slice_chars(&rest, 0, i);
                let after = slice_chars(&rest, i + pl, rl);
                let ghost old_out = out@;
                let ghost old_rest = rest@;
                push_all(&mut out, &before);
                push_all(&mut out, with);
                proof {
                    assert(before@ =~= old_rest.take(i as int));
                    assert(after@ =~= old_rest.skip(i + pl));
                    assert(replace_spec(old_rest, pat@, with@) == old_rest.take(i as int) + with@ + replace_spec(after@, pat@, with@));
                    assert(out@ =~= old_out + old_rest.take(i as int) + with@);
                    assert(old_out + (old_rest.take(i as int) + with@ + replace_spec(after@, pat@, with@)) =~= out@ + replace_spec(after@, pat@, with@));
                }
                rest = after;
            },
        }
    }
}

/// Replacing a pattern that does not occur changes nothing.
pub proof fn law_replace_absent(s: Seq<char>, pat: Seq<char>, with: Seq<char>)
    requires
        find_spec(s, pat) is None,
    ensures
        replace_spec(s, pat, with) == s,
{
}

} // verus!

verus! {

/// Every character is ASCII.
pub open spec fn all_ascii(s: Seq<char>) -> bool {
    forall|i: int| 0 <= i < s.len() ==> (#[trigger] s[i] as u32) < 128
}

/// An ASCII letter in upper case; any other character as it is.
pub open spec fn ascii_upper(c: char) -> char {
    if 'a' <= c <= 'z' {
        ((c as u32) - 32) as char
    } else {
        c
    }
}

/// What `str::to_lowercase` gives for a string (Unicode lower case).
pub uninterp spec fn lowercase(s: Seq<char>) -> Seq<char>;

/// `str::to_lowercase`. Trusted: the result depends on the string alone;
/// Unicode's case tables decide what it is, and on ASCII text they map each
/// upper-case letter to its lower case and leave every other character.
#[verifier::external_body]
pub(crate) fn to_lowercase(s: &str) -> (r: String)
    ensures
        r@ == lowercase(s@),
        all_ascii(s@) ==> r@ == s@.map_values(|c: char| ascii_lower(c)),
{
    s.to_lowercase()
}

} // verus!
