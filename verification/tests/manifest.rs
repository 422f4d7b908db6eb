use cosmic_widgets::manifest::{
    default_entry, default_fuel, default_memory_pages, default_placements, default_schema,
    default_timeout_ms, default_wasm_entry, validate_id, validate_size_range,
};
use cosmic_widgets::{Manifest, PlacementKind, RefreshPolicy, Size, WasmManifest, PACKAGE_SCHEMA};
use semver::Version;

fn manifest() -> Manifest {
    Manifest {
        schema: PACKAGE_SCHEMA,
        id: "io.github.vynxc.Clock".into(),
        version: Version::new(0, 1, 0),
        name: "Clock".into(),
        description: String::new(),
        entry: "index.html".into(),
        default_size: Size { width: 320, height: 180 },
        min_size: Size { width: 160, height: 90 },
        max_size: Size { width: 640, height: 360 },
        placements: vec![PlacementKind::Desktop],
        refresh: RefreshPolicy::OnChange,
        capabilities: Vec::new(),
        wasm: None,
    }
}

fn wasm() -> WasmManifest {
    WasmManifest {
        module: "logic.wasm".into(),
        memory_pages: 256,
        fuel: 5_000_000,
        timeout_ms: 50,
    }
}

#[test]
fn validate_should_accept_well_formed_manifest() {
    assert!(manifest().validate().is_ok());
}

#[test]
fn validate_should_reject_inverted_size_range() {
    let mut value = manifest();
    value.min_size.width = 500;
    assert!(value.validate().is_err());
}

#[test]
fn validate_should_name_the_unsupported_schema() {
    let mut value = manifest();
    value.schema = 27;
    assert_eq!(value.validate(), Err("unsupported schema 27, expected 1".to_string()));
}

#[test]
fn validate_should_require_reverse_dns_id() {
    for id in ["clock", "io.github", "io..Clock", ".io.github.Clock", "io.github.Clock.", "io.git hub.Clock", "io.github.Cl_ock"] {
        let mut value = manifest();
        value.id = id.into();
        assert_eq!(
            value.validate(),
            Err("id must be a reverse-DNS identifier".to_string()),
            "{id}"
        );
    }
    for id in ["io.github.Clock", "a.b.c", "dev.example-widgets.Clock-2", "a.b.c.d.e"] {
        assert!(validate_id(id).is_ok(), "{id}");
    }
}

#[test]
fn validate_should_reject_blank_name() {
    let mut value = manifest();
    value.name = " \t\u{3000}\n".into();
    assert_eq!(value.validate(), Err("name must not be empty".to_string()));
    value.name = " x ".into();
    assert!(value.validate().is_ok());
}

#[test]
fn validate_should_reject_escaping_entry() {
    for entry in ["/index.html", "../index.html", "pages/../../x.html"] {
        let mut value = manifest();
        value.entry = entry.into();
        assert_eq!(
            value.validate(),
            Err("entry must be a package-relative path".to_string())
        );
    }
    let mut value = manifest();
    value.entry = "pages/index.html".into();
    assert!(value.validate().is_ok());
}

#[test]
fn validate_size_range_should_order_its_messages() {
    let zero = Size { width: 0, height: 10 };
    let small = Size { width: 10, height: 10 };
    let large = Size { width: 20, height: 20 };
    assert_eq!(
        validate_size_range(zero, small, large),
        Err("minimum size must be non-zero".to_string())
    );
    assert_eq!(
        validate_size_range(small, large, small),
        Err("size must satisfy min <= default <= max".to_string())
    );
    assert!(validate_size_range(small, small, large).is_ok());
}

#[test]
fn validate_should_require_a_placement() {
    let mut value = manifest();
    value.placements.clear();
    assert_eq!(
        value.validate(),
        Err("at least one placement is required".to_string())
    );
}

#[test]
fn validate_should_bound_refresh_interval() {
    let mut value = manifest();
    value.refresh = RefreshPolicy::Interval { milliseconds: 249 };
    assert_eq!(
        value.validate(),
        Err("refresh intervals below 250 ms are not allowed".to_string())
    );
    value.refresh = RefreshPolicy::Interval { milliseconds: 250 };
    assert!(value.validate().is_ok());
}

#[test]
fn validate_should_bound_wasm_resources() {
    let mut value = manifest();
    value.wasm = Some(wasm());
    assert!(value.validate().is_ok());

    let cases: [(fn(&mut WasmManifest), &str); 7] = [
        (|w| w.module = "../logic.wasm".into(), "WASM module must be a package-relative path"),
        (|w| w.memory_pages = 0, "WASM memory_pages must be between 1 and 1024"),
        (|w| w.memory_pages = 1025, "WASM memory_pages must be between 1 and 1024"),
        (|w| w.fuel = 9_999, "WASM fuel must be between 10,000 and 100,000,000"),
        (|w| w.fuel = 100_000_001, "WASM fuel must be between 10,000 and 100,000,000"),
        (|w| w.timeout_ms = 0, "WASM timeout_ms must be between 1 and 1000"),
        (|w| w.timeout_ms = 1_001, "WASM timeout_ms must be between 1 and 1000"),
    ];
    for (change, message) in cases {
        let mut module = wasm();
        change(&mut module);
        let mut value = manifest();
        value.wasm = Some(module);
        assert_eq!(value.validate(), Err(message.to_string()));
    }
}

#[test]
fn validate_should_report_the_first_problem() {
    let mut value = manifest();
    value.id = "bad".into();
    value.name = String::new();
    value.placements.clear();
    assert_eq!(
        value.validate(),
        Err("id must be a reverse-DNS identifier".to_string())
    );
}

#[test]
fn defaults_should_match_schema() {
    assert_eq!(default_schema(), 1);
    assert_eq!(default_entry(), "index.html");
    assert_eq!(default_placements(), vec![PlacementKind::Desktop]);
    assert_eq!(default_wasm_entry(), "logic.wasm");
    assert_eq!(default_memory_pages(), 256);
    assert_eq!(default_fuel(), 5_000_000);
    assert_eq!(default_timeout_ms(), 50);
    assert_eq!(RefreshPolicy::default(), RefreshPolicy::OnChange);
}
