use cosmic_widgets::logic::{check_output, finish_call, plugin_settings, PluginSettings};
use cosmic_widgets::ExtismInstance;
use cosmic_widgets::{ExtismEngine, LogicError, LogicLimits, WidgetLogicEngine};

#[test]
fn logic_limits_should_default_to_conservative_ceilings() {
    let limits = LogicLimits::default();
    assert_eq!(limits.memory_pages, 256);
    assert_eq!(limits.fuel, 5_000_000);
    assert_eq!(limits.timeout_ms, 50);
    assert_eq!(limits.max_output_bytes, 1024 * 1024);
}

#[test]
fn check_output_should_enforce_the_ceiling() {
    assert_eq!(check_output(vec![1, 2, 3], 3).unwrap(), vec![1, 2, 3]);
    match check_output(vec![1, 2, 3, 4], 3) {
        Err(LogicError::OutputTooLarge { actual, limit }) => {
            assert_eq!((actual, limit), (4, 3));
        }
        other => panic!("unexpected result: {other:?}"),
    }
}

#[test]
fn instantiate_should_reject_invalid_modules() {
    let engine = ExtismEngine::new(None);
    match engine.instantiate(b"not wasm", LogicLimits::default()) {
        Err(LogicError::Compile(_)) => {}
        Err(other) => panic!("unexpected error: {other:?}"),
        Ok(_) => panic!("invalid module should not compile"),
    }
}

#[test]
fn with_cache_probe_should_follow_presence() {
    let _present = ExtismEngine::with_cache_probe("/tmp/cache.toml".into(), true);
    let _absent = ExtismEngine::with_cache_probe("/tmp/cache.toml".into(), false);
    let _probed = ExtismEngine::with_cache_if_present("/nonexistent/cosmic-widgets-cache.toml".into());
}

#[test]
fn finish_call_should_map_failures_and_enforce_the_ceiling() {
    match finish_call(Err("trap".to_string()), 8) {
        Err(LogicError::Call(message)) => assert_eq!(message, "trap"),
        other => panic!("unexpected result: {other:?}"),
    }
    assert_eq!(finish_call(Ok(vec![7; 8]), 8).unwrap(), vec![7; 8]);
    assert!(matches!(
        finish_call(Ok(vec![7; 9]), 8),
        Err(LogicError::OutputTooLarge { actual: 9, limit: 8 })
    ));
}

#[test]
fn from_build_should_report_compile_failures() {
    match ExtismInstance::from_build(Err("bad module".to_string()), LogicLimits::default()) {
        Err(LogicError::Compile(message)) => assert_eq!(message, "bad module"),
        Err(other) => panic!("unexpected error: {other:?}"),
        Ok(_) => panic!("a failed build should not give an instance"),
    }
}

#[test]
fn plugin_settings_should_disable_wasi_and_carry_the_ceilings() {
    let limits = LogicLimits { memory_pages: 16, fuel: 1_000, timeout_ms: 20, max_output_bytes: 64 };
    let settings: PluginSettings = plugin_settings(limits, Some("/tmp/cache.toml".into()));
    assert!(!settings.wasi);
    assert_eq!(settings.memory_pages, 16);
    assert_eq!(settings.timeout_ms, 20);
    assert_eq!(settings.fuel, 1_000);
    assert_eq!(settings.cache, Some(std::path::PathBuf::from("/tmp/cache.toml")));
    assert_eq!(plugin_settings(limits, None).cache, None);
}

