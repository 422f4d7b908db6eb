use cosmic_widgets::{resolve_path, ProviderRegistry};
use serde_json::Value;

fn json(text: &str) -> Value {
    serde_json::from_str(text).expect("test JSON should parse")
}

#[test]
fn resolve_path_should_return_nested_value() {
    let root = json(r#"{"system": {"cpu": 42.5}}"#);
    assert_eq!(resolve_path(&root, "system.cpu"), Some(&json("42.5")));
}

#[test]
fn resolve_path_should_stop_at_missing_or_non_object_members() {
    let root = json(r#"{"system": {"cpu": 42.5, "tags": ["a"]}, "": {"x": 1}}"#);
    assert_eq!(resolve_path(&root, "system.gpu"), None);
    assert_eq!(resolve_path(&root, "system.cpu.value"), None);
    assert_eq!(resolve_path(&root, "system.tags.0"), None);
    assert_eq!(resolve_path(&root, ".x"), Some(&json("1")));
    assert_eq!(resolve_path(&root, "system"), Some(&json(r#"{"cpu": 42.5, "tags": ["a"]}"#)));
}

#[test]
fn update_should_not_advance_unchanged_provider() {
    let mut registry = ProviderRegistry::default();
    let _ = registry.update("clock", json(r#"{"time": "10:00"}"#));
    let patch = registry.update("clock", json(r#"{"time": "10:00"}"#));
    assert!(patch.is_none());
}

#[test]
fn snapshot_should_combine_provider_roots() {
    let mut registry = ProviderRegistry::default();
    let _ = registry.update("clock", json(r#"{"time": "10:00"}"#));
    assert_eq!(registry.snapshot()["clock"]["time"], "10:00");
}

#[test]
fn update_should_advance_revision_only_on_change() {
    let mut registry = ProviderRegistry::default();
    assert_eq!(registry.revision("clock"), 0);
    let patch = registry.update("clock", json(r#"{"time": "10:00"}"#)).expect("first update is a change");
    assert_eq!(patch.path, "clock");
    assert_eq!(patch.value, json(r#"{"time": "10:00"}"#));
    assert_eq!(registry.revision("clock"), 1);
    assert!(registry.update("clock", json(r#"{"time": "10:00"}"#)).is_none());
    assert_eq!(registry.revision("clock"), 1);
    assert!(registry.update("clock", json(r#"{"time": "10:01"}"#)).is_some());
    assert_eq!(registry.revision("clock"), 2);
    assert!(registry.update("media", json("null")).is_some());
    assert_eq!(registry.revision("media"), 1);
    assert_eq!(registry.revision("clock"), 2);
    assert_eq!(
        registry.snapshot(),
        json(r#"{"clock": {"time": "10:01"}, "media": null}"#)
    );
}

#[test]
fn resolve_path_should_compose_one_member_lookup_per_segment() {
    let root = json(r#"{"a": [1], "m": {"n": {"o": true}}}"#);
    assert_eq!(resolve_path(&root, "a.0"), None);
    let prefix = resolve_path(&root, "m.n");
    assert_eq!(resolve_path(&root, "m.n.o"), prefix.and_then(|v| v.get("o")));
    assert_eq!(resolve_path(&root, "m"), root.get("m"));
    assert_eq!(resolve_path(&root, "m.x.o"), None);
}
