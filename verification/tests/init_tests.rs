use ds_common_logger::init::{initialize, resolve_config};
use ds_common_logger::level::Level;
use ds_common_logger::output::OutputFormat;

#[test]
fn resolved_config_defaults_when_nothing_is_set() {
    let cfg = resolve_config(None, None);
    assert_eq!(cfg.format, OutputFormat::Compact);
    assert_eq!(cfg.directive.as_str(), "info");
    assert_eq!(cfg.filter.default_level, Some(Level::Info));
    assert_eq!(cfg.filter.modules.len(), 0);
    assert!(!cfg.options.span_context);
    assert!(cfg.options.thread_ids && cfg.options.thread_names);
    assert!(cfg.options.span_close_events && cfg.options.show_target);
}

#[test]
fn resolved_config_keeps_a_valid_directive() {
    let cfg = resolve_config(Some("debug,my_crate=warn"), Some("JSON"));
    assert_eq!(cfg.format, OutputFormat::Json);
    assert_eq!(cfg.directive.as_str(), "debug,my_crate=warn");
    assert_eq!(cfg.filter.default_level, Some(Level::Debug));
    assert_eq!(cfg.filter.modules.len(), 1);
    assert!(cfg.options.span_context);
}

#[test]
fn resolved_config_falls_back_on_a_rejected_directive() {
    let cfg = resolve_config(Some("no such level"), Some("anything"));
    assert_eq!(cfg.format, OutputFormat::Compact);
    assert_eq!(cfg.directive.as_str(), "info");
    assert_eq!(cfg.filter.default_level, Some(Level::Info));
    assert_eq!(cfg.filter.modules.len(), 0);
}

#[test]
fn initialize_installs_and_reports_the_snapshot() {
    let cfg = initialize(Some("debug"), Some("json"));
    assert_eq!(cfg.format, OutputFormat::Json);
    assert_eq!(cfg.directive.as_str(), "debug");
    assert_eq!(cfg.filter.default_level, Some(Level::Debug));
}

#[test]
fn initialize_with_defaults_installs_the_compact_pipeline() {
    let cfg = initialize(None, None);
    assert_eq!(cfg.format, OutputFormat::Compact);
    assert_eq!(cfg.directive.as_str(), "info");
}
