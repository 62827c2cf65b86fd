use dewey::discovery::{discovery_order, resolve_module, validate, validate_named, Manifest, ModuleEntry};

fn manifest(name: &str, caps: &[&str]) -> Manifest {
    Manifest {
        name: name.into(),
        version: "0.1.0".into(),
        description: Some("a fake library".into()),
        command: vec!["python3".into(), "fake.py".into()],
        capabilities: caps.iter().map(|c| c.to_string()).collect(),
    }
}

/// The entries that discovery yields for a modules directory holding a
/// valid module "fake" and a module "broken" whose manifest does not load.
fn fixtures() -> Vec<ModuleEntry> {
    vec![
        ModuleEntry {
            name: "broken".into(),
            dir: "/fixtures/broken".into(),
            manifest: None,
            error: Some("invalid manifest.toml: missing field `command`".into()),
        },
        ModuleEntry {
            name: "fake".into(),
            dir: "/fixtures/fake".into(),
            manifest: Some(manifest("fake", &["search", "categories", "list", "book"])),
            error: None,
        },
    ]
}

#[test]
fn resolve_unknown_is_usage_error() {
    let entries = fixtures();
    let err = resolve_module(&entries, "nope").unwrap_err();
    assert_eq!(err.exit_code(), 1);
}

#[test]
fn resolve_broken_is_config_error() {
    let entries = fixtures();
    let err = resolve_module(&entries, "broken").unwrap_err();
    assert_eq!(err.exit_code(), 4);
}

#[test]
fn resolve_valid_returns_entry() {
    let entries = fixtures();
    let e = resolve_module(&entries, "fake").unwrap();
    assert_eq!(
        e.manifest.as_ref().unwrap().capabilities,
        vec!["search", "categories", "list", "book"]
    );
}

#[test]
fn resolve_messages_name_the_module() {
    let entries = fixtures();
    assert_eq!(
        resolve_module(&entries, "nope").unwrap_err().message(),
        "unknown module \"nope\"; installed: broken, fake"
    );
    assert_eq!(
        resolve_module(&entries, "broken").unwrap_err().message(),
        "module \"broken\" is broken: invalid manifest.toml: missing field `command`"
    );
    assert_eq!(
        resolve_module(&vec![], "x").unwrap_err().message(),
        "unknown module \"x\"; installed: (none)"
    );
}

#[test]
fn validate_accepts_valid_manifest() {
    assert!(validate(&manifest("fake", &["search", "book"]), "/some/where/fake").is_ok());
    assert!(validate_named(&manifest("a-1", &["list"]), "a-1").is_ok());
    assert!(validate(&manifest("fake", &["search"]), "relative/fake").is_ok());
    assert!(validate(&manifest("fake", &["search"]), "fake").is_ok());
}

#[test]
fn validate_checks_in_order() {
    assert_eq!(
        validate_named(&manifest("Fake", &["search"]), "Fake").unwrap_err(),
        "name must match ^[a-z0-9-]+$, got \"Fake\""
    );
    assert_eq!(
        validate_named(&manifest("", &["search"]), "").unwrap_err(),
        "name must match ^[a-z0-9-]+$, got \"\""
    );
    assert_eq!(
        validate(&manifest("fake", &["search"]), "/mods/other").unwrap_err(),
        "manifest name \"fake\" does not match directory \"other\""
    );
    let mut m = manifest("fake", &["search"]);
    m.version = " \t".into();
    assert_eq!(validate_named(&m, "fake").unwrap_err(), "version must be non-empty");
    let mut m = manifest("fake", &["search"]);
    m.command = vec![];
    assert_eq!(validate_named(&m, "fake").unwrap_err(), "command must be non-empty");
    assert_eq!(validate_named(&manifest("fake", &[]), "fake").unwrap_err(), "capabilities must be non-empty");
    assert_eq!(
        validate_named(&manifest("fake", &["search", "download", "x"]), "fake").unwrap_err(),
        "unknown capability \"download\" (allowed: search, categories, list, book)"
    );
}

#[test]
fn discovery_order_sorts_names_stably() {
    let names: Vec<String> = ["gutenberg", "broken", "fake", "b", "broken", "Zed", "ä"].iter().map(|s| s.to_string()).collect();
    let order = discovery_order(&names);
    let sorted: Vec<&str> = order.iter().map(|i| names[*i].as_str()).collect();
    assert_eq!(sorted, vec!["Zed", "b", "broken", "broken", "fake", "gutenberg", "ä"]);
    assert_eq!(order[2], 1);
    assert_eq!(order[3], 4);
    assert!(discovery_order(&vec![]).is_empty());
}
