use span_assertions::SpanData;
use span_assertions::SpanMatcher;

fn span(name: &str, target: &str, fields: &[&str]) -> SpanData {
    SpanData {
        name: name.to_string(),
        target: target.to_string(),
        fields: fields.iter().map(|f| f.to_string()).collect(),
    }
}

#[test]
fn empty_matcher_matches_every_span() {
    let m = SpanMatcher::default();
    assert!(m.matches(&span("request", "server", &[])));
    assert!(m.matches(&span("", "", &[])));
    assert!(m.matches(&span("anything", "db::query", &["sql", "rows"])));
}

#[test]
fn name_criterion_decides_alone() {
    let mut m = SpanMatcher::default();
    m.set_name("request".to_string());
    assert!(m.matches(&span("request", "server", &[])));
    assert!(m.matches(&span("request", "db::query", &["sql"])));
    assert!(!m.matches(&span("response", "server", &[])));
}

#[test]
fn set_name_overwrites_previous_value() {
    let mut m = SpanMatcher::default();
    m.set_name("request".to_string());
    m.set_name("response".to_string());
    assert!(!m.matches(&span("request", "server", &[])));
    assert!(m.matches(&span("response", "server", &[])));
}

#[test]
fn target_criterion_decides_alone() {
    let mut m = SpanMatcher::default();
    m.set_target("db::query".to_string());
    assert!(m.matches(&span("request", "db::query", &[])));
    assert!(m.matches(&span("other", "db::query", &["sql"])));
    assert!(!m.matches(&span("request", "db", &[])));
}

#[test]
fn set_target_overwrites_previous_value() {
    let mut m = SpanMatcher::default();
    m.set_target("db".to_string());
    m.set_target("db::query".to_string());
    assert!(!m.matches(&span("request", "db", &[])));
    assert!(m.matches(&span("request", "db::query", &[])));
}

#[test]
fn target_and_field_criterion() {
    let mut m = SpanMatcher::default();
    m.set_target("db::query".to_string());
    m.add_field_exists("sql".to_string());
    // field declared, whatever its value would be, and target equal
    assert!(m.matches(&span("query", "db::query", &["sql"])));
    assert!(m.matches(&span("other", "db::query", &["rows", "sql"])));
    // same target but the field is not declared
    assert!(!m.matches(&span("query", "db::query", &["rows"])));
    // field declared but another target
    assert!(!m.matches(&span("query", "db::insert", &["sql"])));
}

#[test]
fn every_field_criterion_must_hold() {
    let mut m = SpanMatcher::default();
    m.add_field_exists("sql".to_string());
    m.add_field_exists("rows".to_string());
    m.add_field_exists("elapsed".to_string());
    assert!(m.matches(&span("q", "db", &["elapsed", "rows", "sql"])));
    assert!(!m.matches(&span("q", "db", &["sql", "rows"])));
    assert!(!m.matches(&span("q", "db", &[])));
}

#[test]
fn duplicate_field_criteria_match_like_a_single_one() {
    let mut once = SpanMatcher::default();
    once.add_field_exists("sql".to_string());
    let mut twice = SpanMatcher::default();
    twice.add_field_exists("sql".to_string());
    twice.add_field_exists("sql".to_string());
    let with_field = span("q", "db", &["sql"]);
    let without_field = span("q", "db", &["rows"]);
    assert_eq!(once.matches(&with_field), twice.matches(&with_field));
    assert_eq!(once.matches(&without_field), twice.matches(&without_field));
    assert!(twice.matches(&with_field));
    assert!(!twice.matches(&without_field));
    // the duplicate is still stored, so the matchers compare unequal
    assert!(once != twice);
}

#[test]
fn all_criterion_kinds_combine_by_and() {
    let mut m = SpanMatcher::default();
    m.set_name("query".to_string());
    m.set_target("db::query".to_string());
    m.add_field_exists("sql".to_string());
    assert!(m.matches(&span("query", "db::query", &["sql"])));
    // each single failing kind rejects, whichever kind it is
    assert!(!m.matches(&span("other", "db::query", &["sql"])));
    assert!(!m.matches(&span("query", "db::other", &["sql"])));
    assert!(!m.matches(&span("query", "db::query", &["rows"])));
}

#[test]
fn matcher_equality_is_structural_and_order_sensitive() {
    let mut ab = SpanMatcher::default();
    ab.add_field_exists("a".to_string());
    ab.add_field_exists("b".to_string());
    let mut ba = SpanMatcher::default();
    ba.add_field_exists("b".to_string());
    ba.add_field_exists("a".to_string());
    let mut ab2 = SpanMatcher::default();
    ab2.add_field_exists("a".to_string());
    ab2.add_field_exists("b".to_string());
    // behaviourally indistinguishable ...
    let both = span("s", "t", &["a", "b"]);
    let only_a = span("s", "t", &["a"]);
    assert_eq!(ab.matches(&both), ba.matches(&both));
    assert_eq!(ab.matches(&only_a), ba.matches(&only_a));
    // ... yet unequal when the insertion order differs
    assert!(ab != ba);
    assert!(ab == ab2);
}

#[test]
fn cloned_matcher_matches_the_same_spans() {
    let mut m = SpanMatcher::default();
    m.set_name("query".to_string());
    m.add_field_exists("sql".to_string());
    let c = m.clone();
    let yes = span("query", "db", &["sql"]);
    let no = span("query", "db", &[]);
    assert_eq!(m.matches(&yes), c.matches(&yes));
    assert_eq!(m.matches(&no), c.matches(&no));
    assert!(m == c);
}
