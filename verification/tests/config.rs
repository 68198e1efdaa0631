use the_desk::config::{EngineMode, SilConfig};

#[test]
fn sil_config_defaults_discovery_off() {
    assert!(!SilConfig::default().catalog_discovery);
    assert_eq!(SilConfig::default().engine_mode, EngineMode::Embedded);
    assert!(SilConfig::default().engine_bind.is_none());
}

#[test]
fn engine_mode_labels() {
    assert_eq!(EngineMode::parse(" External "), Some(EngineMode::External));
    assert_eq!(EngineMode::parse("socket"), Some(EngineMode::External));
    assert_eq!(EngineMode::parse("ipc"), Some(EngineMode::External));
    assert_eq!(EngineMode::parse("embedded"), Some(EngineMode::Embedded));
    assert_eq!(EngineMode::parse("cloud"), None);
    assert_eq!(EngineMode::External.as_str(), "external");
    assert_eq!(EngineMode::default(), EngineMode::Embedded);
}
