//! Unit tests of the path accessor and the violation collector.

use admission_engine::collector::Collector;
use admission_engine::lookup::{lookup, lookup_dotted, split_path, Found};
use admission_engine::tree::PayloadTree;

fn s(x: &str) -> String {
    x.to_string()
}

fn obj(entries: Vec<(&str, PayloadTree)>) -> PayloadTree {
    PayloadTree::Obj(entries.into_iter().map(|(k, v)| (s(k), v)).collect())
}

fn path(segments: Vec<&str>) -> Vec<String> {
    segments.into_iter().map(s).collect()
}

#[test]
fn lookup_present_resolves_nested_value() {
    let root = obj(vec![("a", obj(vec![("b", PayloadTree::Num(7))]))]);
    match lookup(&root, &path(vec!["a", "b"])) {
        Found::Present(PayloadTree::Num(n)) => assert_eq!(*n, 7),
        _ => panic!("expected the nested value"),
    }
}

#[test]
fn lookup_empty_path_returns_root() {
    let root = PayloadTree::Bool(true);
    match lookup(&root, &path(vec![])) {
        Found::Present(PayloadTree::Bool(b)) => assert!(*b),
        _ => panic!("expected the root itself"),
    }
}

#[test]
fn lookup_missing_field_is_absent() {
    let root = obj(vec![("a", obj(vec![]))]);
    assert!(matches!(lookup(&root, &path(vec!["a", "b"])), Found::Absent));
    assert!(matches!(lookup(&root, &path(vec!["z"])), Found::Absent));
}

#[test]
fn lookup_through_scalar_is_mismatch() {
    let root = obj(vec![("a", PayloadTree::Str(s("scalar")))]);
    assert!(matches!(
        lookup(&root, &path(vec!["a", "b"])),
        Found::Mismatch
    ));
}

#[test]
fn lookup_through_sequence_is_mismatch() {
    let root = obj(vec![("a", PayloadTree::Arr(vec![]))]);
    assert!(matches!(
        lookup(&root, &path(vec!["a", "b"])),
        Found::Mismatch
    ));
}

#[test]
fn lookup_first_binding_wins() {
    let root = obj(vec![
        ("k", PayloadTree::Num(1)),
        ("k", PayloadTree::Num(2)),
    ]);
    match lookup(&root, &path(vec!["k"])) {
        Found::Present(PayloadTree::Num(n)) => assert_eq!(*n, 1),
        _ => panic!("expected the first binding"),
    }
}

#[test]
fn split_path_on_dots() {
    assert_eq!(split_path("spec.containers"), vec![s("spec"), s("containers")]);
    assert_eq!(split_path("canTalk"), vec![s("canTalk")]);
    assert_eq!(split_path(""), vec![s("")]);
    assert_eq!(split_path("a..b"), vec![s("a"), s(""), s("b")]);
    assert_eq!(split_path("a."), vec![s("a"), s("")]);
}

#[test]
fn dotted_lookup_matches_segment_lookup() {
    let root = obj(vec![(
        "spec",
        obj(vec![("speaker", PayloadTree::Arr(vec![]))]),
    )]);
    match lookup_dotted(&root, "spec.speaker") {
        Found::Present(PayloadTree::Arr(a)) => assert!(a.is_empty()),
        _ => panic!("expected the speaker array"),
    }
    assert!(matches!(lookup_dotted(&root, "spec.missing"), Found::Absent));
    assert!(matches!(
        lookup_dotted(&root, "spec.speaker.x"),
        Found::Mismatch
    ));
}

#[test]
fn collector_starts_clean() {
    let c = Collector::new();
    assert!(c.is_clean());
    assert_eq!(c.render(), "");
}

#[test]
fn collector_renders_in_order_with_newlines() {
    let mut c = Collector::new();
    c.record(s("first"));
    assert!(!c.is_clean());
    assert_eq!(c.render(), "first");
    c.record(s("second"));
    c.record(s("third"));
    assert!(!c.is_clean());
    assert_eq!(c.render(), "first\nsecond\nthird");
}
