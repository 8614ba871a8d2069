use span_assertions::AssertionRegistry;
use span_assertions::AssertionsLayer;
use span_assertions::LifecycleEvent;
use span_assertions::SpanData;
use span_assertions::SpanMatcher;

fn span(name: &str, target: &str, fields: &[&str]) -> SpanData {
    SpanData {
        name: name.to_string(),
        target: target.to_string(),
        fields: fields.iter().map(|f| f.to_string()).collect(),
    }
}

fn counts(layer: &AssertionsLayer, i: usize) -> (u64, u64, u64, u64) {
    let entry = layer.state().entry(i);
    (
        entry.count(LifecycleEvent::Created),
        entry.count(LifecycleEvent::Entered),
        entry.count(LifecycleEvent::Exited),
        entry.count(LifecycleEvent::Closed),
    )
}

#[test]
fn lifecycle_sequence_records_each_transition_once() {
    let mut registry = AssertionRegistry::new();
    let mut matcher = SpanMatcher::default();
    matcher.set_name("request".to_string());
    registry.register(matcher);
    let mut layer = AssertionsLayer::new(&registry);
    let s = span("request", "server", &["method"]);

    assert_eq!(counts(&layer, 0), (0, 0, 0, 0));
    layer.on_created(&s);
    assert_eq!(counts(&layer, 0), (1, 0, 0, 0));
    layer.on_entered(&s);
    assert_eq!(counts(&layer, 0), (1, 1, 0, 0));
    layer.on_exited(&s);
    assert_eq!(counts(&layer, 0), (1, 1, 1, 0));
    layer.on_closed(&s);
    assert_eq!(counts(&layer, 0), (1, 1, 1, 1));
}

#[test]
fn unmatched_span_leaves_everything_untouched() {
    let mut registry = AssertionRegistry::new();
    let mut matcher = SpanMatcher::default();
    matcher.set_name("request".to_string());
    registry.register(matcher);
    let mut layer = AssertionsLayer::new(&registry);
    let s = span("background_job", "worker", &[]);

    layer.on_created(&s);
    layer.on_entered(&s);
    layer.on_exited(&s);
    layer.on_closed(&s);
    assert_eq!(counts(&layer, 0), (0, 0, 0, 0));
    assert!(layer.state().get_entry(&s).is_none());
}

#[test]
fn first_matching_entry_takes_the_event() {
    let mut registry = AssertionRegistry::new();
    let mut broad = SpanMatcher::default();
    broad.set_name("request".to_string());
    let mut narrow = SpanMatcher::default();
    narrow.set_name("request".to_string());
    narrow.add_field_exists("method".to_string());
    registry.register(broad);
    registry.register(narrow);
    let mut layer = AssertionsLayer::new(&registry);
    let s = span("request", "server", &["method"]);

    // both matchers accept the span; only the first entry is charged
    layer.on_created(&s);
    assert_eq!(counts(&layer, 0), (1, 0, 0, 0));
    assert_eq!(counts(&layer, 1), (0, 0, 0, 0));
}

#[test]
fn later_entry_takes_the_event_when_earlier_ones_reject() {
    let mut registry = AssertionRegistry::new();
    let mut responses = SpanMatcher::default();
    responses.set_name("response".to_string());
    let mut requests = SpanMatcher::default();
    requests.set_name("request".to_string());
    registry.register(responses);
    registry.register(requests);
    let mut layer = AssertionsLayer::new(&registry);
    let s = span("request", "server", &[]);

    layer.on_created(&s);
    layer.on_closed(&s);
    assert_eq!(counts(&layer, 0), (0, 0, 0, 0));
    assert_eq!(counts(&layer, 1), (1, 0, 0, 1));
}

#[test]
fn spans_can_be_entered_and_exited_repeatedly() {
    let mut registry = AssertionRegistry::new();
    let mut matcher = SpanMatcher::default();
    matcher.set_target("db::query".to_string());
    registry.register(matcher);
    let mut layer = AssertionsLayer::new(&registry);
    let s = span("query", "db::query", &["sql"]);

    layer.on_created(&s);
    layer.on_entered(&s);
    layer.on_exited(&s);
    layer.on_entered(&s);
    layer.on_exited(&s);
    layer.on_closed(&s);
    assert_eq!(counts(&layer, 0), (1, 2, 2, 1));
}

#[test]
fn get_entry_returns_the_first_match_or_nothing() {
    let mut registry = AssertionRegistry::new();
    let mut matcher = SpanMatcher::default();
    matcher.set_name("request".to_string());
    registry.register(matcher);

    let mut expected = SpanMatcher::default();
    expected.set_name("request".to_string());
    let hit = registry.state().get_entry(&span("request", "server", &[]));
    assert!(hit.is_some());
    assert!(*hit.unwrap().matcher() == expected);

    let miss = registry.state().get_entry(&span("response", "server", &[]));
    assert!(miss.is_none());
}

#[test]
fn layer_starts_from_the_registered_entries() {
    let mut registry = AssertionRegistry::new();
    let mut first = SpanMatcher::default();
    first.set_name("request".to_string());
    let mut second = SpanMatcher::default();
    second.set_target("db::query".to_string());
    registry.register(first);
    registry.register(second);
    let layer = AssertionsLayer::new(&registry);

    assert_eq!(layer.state().len(), 2);
    assert_eq!(counts(&layer, 0), (0, 0, 0, 0));
    assert_eq!(counts(&layer, 1), (0, 0, 0, 0));

    let mut expected = SpanMatcher::default();
    expected.set_name("request".to_string());
    assert!(*layer.state().entry(0).matcher() == expected);
}
