use osubot::score_filter::{
    apply_mod_filter, cmp_i64, parse_filter_token, parse_mod_filter, plan_filters, FilterOp,
    FilterScore, FloatField,
};

fn score(miss: i64, combo: i64, value: i64, mods: &[&str]) -> FilterScore {
    FilterScore {
        count_miss: miss,
        max_combo: combo,
        score_value: value,
        mods: mods.iter().map(|m| m.to_string()).collect(),
    }
}

/// Passes when no integer or mod filter fails and no float comparison is left.
fn matches(s: &FilterScore, filters: &[String]) -> bool {
    match plan_filters(s, filters) {
        Some(checks) => checks.is_empty(),
        None => false,
    }
}

#[test]
fn parse_token_eq() {
    let r = parse_filter_token("miss=0");
    assert_eq!(r, Some(("miss".to_string(), FilterOp::Eq, "0".to_string())));
}

#[test]
fn parse_token_eqeq() {
    let r = parse_filter_token("miss==0");
    assert_eq!(r, Some(("miss".to_string(), FilterOp::EqEq, "0".to_string())));
}

#[test]
fn parse_token_noteq() {
    let r = parse_filter_token("miss!=0");
    assert_eq!(r, Some(("miss".to_string(), FilterOp::NotEq, "0".to_string())));
}

#[test]
fn parse_token_gt() {
    let r = parse_filter_token("miss>0");
    assert_eq!(r, Some(("miss".to_string(), FilterOp::Gt, "0".to_string())));
}

#[test]
fn parse_token_lt() {
    let r = parse_filter_token("miss<10");
    assert_eq!(r, Some(("miss".to_string(), FilterOp::Lt, "10".to_string())));
}

#[test]
fn parse_token_gteq() {
    let r = parse_filter_token("miss>=5");
    assert_eq!(r, Some(("miss".to_string(), FilterOp::GtEq, "5".to_string())));
}

#[test]
fn parse_token_lteq() {
    let r = parse_filter_token("miss<=10");
    assert_eq!(r, Some(("miss".to_string(), FilterOp::LtEq, "10".to_string())));
}

#[test]
fn parse_token_negative_value() {
    let r = parse_filter_token("miss>-5");
    assert_eq!(r, Some(("miss".to_string(), FilterOp::Gt, "-5".to_string())));
}

#[test]
fn parse_token_mod() {
    let r = parse_filter_token("mod=HDDT");
    assert_eq!(r, Some(("mod".to_string(), FilterOp::Eq, "HDDT".to_string())));
}

#[test]
fn parse_token_mod_eqeq() {
    let r = parse_filter_token("mod==DT");
    assert_eq!(r, Some(("mod".to_string(), FilterOp::EqEq, "DT".to_string())));
}

#[test]
fn parse_token_mod_noteq() {
    let r = parse_filter_token("mod!=DT");
    assert_eq!(r, Some(("mod".to_string(), FilterOp::NotEq, "DT".to_string())));
}

#[test]
fn parse_token_empty_value_rejected() {
    assert_eq!(parse_filter_token("miss="), None);
    assert_eq!(parse_filter_token("miss>="), None);
    assert_eq!(parse_filter_token("miss=="), None);
}

#[test]
fn parse_token_empty_key_rejected() {
    assert_eq!(parse_filter_token("=0"), None);
    assert_eq!(parse_filter_token(">0"), None);
    assert_eq!(parse_filter_token("==0"), None);
}

#[test]
fn parse_token_no_operator_rejected() {
    assert_eq!(parse_filter_token("miss0"), None);
    assert_eq!(parse_filter_token(""), None);
}

#[test]
fn parse_token_skips_operator_without_key() {
    // `==` at the start has no key, so the next operator is tried.
    assert_eq!(
        parse_filter_token("==a>3"),
        Some(("==a".to_string(), FilterOp::Gt, "3".to_string()))
    );
    assert_eq!(
        parse_filter_token("a=b=c"),
        Some(("a".to_string(), FilterOp::Eq, "b=c".to_string()))
    );
}

#[test]
fn miss_eq() {
    let s = score(5, 0, 0, &[]);
    assert!(matches(&s, &["miss=5".to_string()]));
    assert!(matches(&s, &["miss==5".to_string()]));
    assert!(!matches(&s, &["miss=4".to_string()]));
}

#[test]
fn miss_noteq() {
    let s = score(5, 0, 0, &[]);
    assert!(matches(&s, &["miss!=4".to_string()]));
    assert!(!matches(&s, &["miss!=5".to_string()]));
}

#[test]
fn miss_ordering() {
    let s = score(5, 0, 0, &[]);
    assert!(matches(&s, &["miss>4".to_string()]));
    assert!(matches(&s, &["miss>=5".to_string()]));
    assert!(!matches(&s, &["miss>5".to_string()]));
    assert!(matches(&s, &["miss<6".to_string()]));
    assert!(matches(&s, &["miss<=5".to_string()]));
    assert!(!matches(&s, &["miss<5".to_string()]));
}

#[test]
fn combo_eq() {
    let s = score(0, 500, 0, &[]);
    assert!(matches(&s, &["combo=500".to_string()]));
    assert!(!matches(&s, &["combo=501".to_string()]));
}

#[test]
fn combo_noteq() {
    let s = score(0, 500, 0, &[]);
    assert!(matches(&s, &["combo!=501".to_string()]));
}

#[test]
fn combo_ordering() {
    let s = score(0, 500, 0, &[]);
    assert!(matches(&s, &["combo>499".to_string()]));
    assert!(matches(&s, &["combo>=500".to_string()]));
    assert!(matches(&s, &["combo<501".to_string()]));
    assert!(matches(&s, &["combo<=500".to_string()]));
}

#[test]
fn score_value_eq() {
    let s = score(0, 0, 1_000_000, &[]);
    assert!(matches(&s, &["score=1000000".to_string()]));
    assert!(!matches(&s, &["score=999999".to_string()]));
}

#[test]
fn score_value_ordering() {
    let s = score(0, 0, 1_000_000, &[]);
    assert!(matches(&s, &["score>999999".to_string()]));
    assert!(!matches(&s, &["score<999999".to_string()]));
}

#[test]
fn float_filters_are_left_to_the_caller() {
    let s = score(0, 0, 0, &[]);
    let checks = plan_filters(&s, &["pp>=500".to_string(), "miss=0".to_string(), "accuracy=95.5".to_string()])
        .expect("integer filters pass");
    assert_eq!(checks.len(), 2);
    assert_eq!(checks[0].field, FloatField::Pp);
    assert_eq!(checks[0].op, FilterOp::GtEq);
    assert_eq!(checks[0].value, "500");
    assert_eq!(checks[1].field, FloatField::Accuracy);
    assert_eq!(checks[1].value, "95.5");
    assert!(plan_filters(&s, &["pp>1".to_string(), "miss=1".to_string()]).is_none());
}

#[test]
fn unparsable_value_and_token_fail() {
    let s = score(0, 0, 0, &[]);
    assert!(!matches(&s, &["miss=abc".to_string()]));
    assert!(!matches(&s, &["nonsense".to_string()]));
    assert!(matches(&s, &["unknown=1".to_string()]));
}

#[test]
fn mod_filter_matches_single_mod() {
    let s = score(0, 0, 0, &["HD"]);
    assert!(matches(&s, &["mod=HD".to_string()]));
}

#[test]
fn mod_filter_does_not_match_missing_mod() {
    let s = score(0, 0, 0, &["DT"]);
    assert!(!matches(&s, &["mod=HD".to_string()]));
}

#[test]
fn mod_filter_subset_match() {
    let s = score(0, 0, 0, &["HD", "DT"]);
    assert!(matches(&s, &["mod=HD".to_string()]));
}

#[test]
fn mod_filter_combined_concat() {
    let s = score(0, 0, 0, &["HD", "DT"]);
    assert!(matches(&s, &["mod=HDDT".to_string()]));
}

#[test]
fn mod_filter_combined_concat_no_match() {
    let s = score(0, 0, 0, &["HD"]);
    assert!(!matches(&s, &["mod=HDDT".to_string()]));
}

#[test]
fn mod_filter_comma_separated() {
    let s = score(0, 0, 0, &["HD", "DT"]);
    assert!(matches(&s, &["mod=HD,DT".to_string()]));
}

#[test]
fn mod_filter_no_mods_score() {
    let s = score(0, 0, 0, &[]);
    assert!(!matches(&s, &["mod=HD".to_string()]));
}

#[test]
fn mod_filter_combines_with_other_keys() {
    let s = score(0, 0, 0, &["HD"]);
    assert!(matches(&s, &["mod=HD".to_string(), "miss=0".to_string()]));
}

#[test]
fn mod_filter_odd_length_fails_match() {
    let s = score(0, 0, 0, &["HD", "DT"]);
    assert!(!matches(&s, &["mod=HDT".to_string()]));
}

#[test]
fn mod_filter_empty_value_no_op() {
    let s = score(0, 0, 0, &[]);
    assert!(matches(&s, &["mod=".to_string()]));
}

#[test]
fn mod_eqeq_exact_match() {
    let s = score(0, 0, 0, &["DT"]);
    assert!(matches(&s, &["mod==DT".to_string()]));
}

#[test]
fn mod_eqeq_does_not_match_superset() {
    let s = score(0, 0, 0, &["HD", "DT"]);
    assert!(!matches(&s, &["mod==DT".to_string()]));
}

#[test]
fn mod_eqeq_compares_sets() {
    let s = score(0, 0, 0, &["HD", "DT"]);
    assert!(!matches(&s, &["mod==DTDT".to_string()]));
    assert!(matches(&s, &["mod==DTHD".to_string()]));
    assert!(matches(&s, &["mod==HD,DT,HD".to_string()]));
}

#[test]
fn mod_eqeq_empty_required() {
    let s = score(0, 0, 0, &[]);
    assert!(matches(&s, &["mod==NM".to_string()]));
    let s = score(0, 0, 0, &["HD"]);
    assert!(!matches(&s, &["mod==NM".to_string()]));
}

#[test]
fn mod_eq_subset_still_works() {
    let s = score(0, 0, 0, &["HD", "DT"]);
    assert!(matches(&s, &["mod=DT".to_string()]));
}

#[test]
fn mod_noteq_negation_of_subset() {
    let s = score(0, 0, 0, &["HD"]);
    assert!(matches(&s, &["mod!=DT".to_string()]));
    let s = score(0, 0, 0, &["DT"]);
    assert!(!matches(&s, &["mod!=DT".to_string()]));
    let s = score(0, 0, 0, &["HD", "DT"]);
    assert!(!matches(&s, &["mod!=DT".to_string()]));
}

#[test]
fn mod_comparison_ops_silently_pass() {
    let s = score(0, 0, 0, &["HD"]);
    for op_filter in &["mod>DT", "mod<DT", "mod>=DT", "mod<=DT"] {
        assert!(matches(&s, &[op_filter.to_string()]), "{op_filter} should silently pass");
    }
}

#[test]
fn mod_filter_lists() {
    assert_eq!(parse_mod_filter(""), Some(Vec::new()));
    assert_eq!(parse_mod_filter(" nm "), Some(Vec::new()));
    assert_eq!(
        parse_mod_filter("hd, dt"),
        Some(vec!["HD".to_string(), "DT".to_string()])
    );
    assert_eq!(parse_mod_filter("HDDTHR"), Some(vec!["HD".to_string(), "DT".to_string(), "HR".to_string()]));
    assert_eq!(parse_mod_filter("HD,D"), None);
    assert!(apply_mod_filter(&vec!["HD".to_string()], FilterOp::EqEq, "hd"));
}

#[test]
fn cmp_i64_eq() {
    assert!(cmp_i64(5, 5, FilterOp::Eq));
    assert!(!cmp_i64(5, 6, FilterOp::Eq));
}

#[test]
fn cmp_i64_noteq() {
    assert!(cmp_i64(5, 6, FilterOp::NotEq));
    assert!(!cmp_i64(5, 5, FilterOp::NotEq));
}

#[test]
fn cmp_i64_ordering() {
    assert!(cmp_i64(6, 5, FilterOp::Gt));
    assert!(!cmp_i64(5, 5, FilterOp::Gt));
    assert!(cmp_i64(5, 5, FilterOp::GtEq));
    assert!(cmp_i64(5, 6, FilterOp::Lt));
    assert!(cmp_i64(5, 5, FilterOp::LtEq));
    assert!(!cmp_i64(5, 5, FilterOp::Lt));
}

#[test]
fn cmp_i64_negative() {
    assert!(cmp_i64(-3, -5, FilterOp::Gt));
    assert!(cmp_i64(-5, -5, FilterOp::Eq));
}

#[test]
fn key_and_value_parse_back_around_every_operator() {
    let ops = [
        ("=", FilterOp::Eq),
        ("==", FilterOp::EqEq),
        ("!=", FilterOp::NotEq),
        ("<", FilterOp::Lt),
        ("<=", FilterOp::LtEq),
        (">", FilterOp::Gt),
        (">=", FilterOp::GtEq),
    ];
    for (text, op) in ops {
        let token = format!("combo{text}1200");
        let (k, o, v) = parse_filter_token(&token).expect("token parses");
        assert_eq!(k, "combo");
        assert_eq!(o, op);
        assert_eq!(v, "1200");
    }
}

#[test]
fn filter_lists_combine_by_conjunction() {
    let s = score(0, 1200, 900_000, &["HD"]);
    let a = vec!["miss=0".to_string(), "pp>=100".to_string()];
    let b = vec!["combo>1000".to_string(), "acc<99".to_string()];
    let both: Vec<String> = a.iter().chain(b.iter()).cloned().collect();
    let ca = plan_filters(&s, &a).expect("a passes");
    let cb = plan_filters(&s, &b).expect("b passes");
    let cab = plan_filters(&s, &both).expect("both pass");
    assert_eq!(cab.len(), ca.len() + cb.len());
    assert_eq!(cab[0].value, ca[0].value);
    assert_eq!(cab[1].value, cb[0].value);
    let failing = vec!["miss>0".to_string()];
    let mixed: Vec<String> = a.iter().chain(failing.iter()).cloned().collect();
    assert!(plan_filters(&s, &failing).is_none());
    assert!(plan_filters(&s, &mixed).is_none());
    assert!(plan_filters(&s, &[]).expect("no filters").is_empty());
}
