use ds_common_logger::level::{parse_level, str_eq_ignore_case, Level};
use ds_common_logger::output::{fmt_options, format_name, resolve_format, OutputFormat};

#[test]
fn level_names_parse_case_insensitively() {
    assert_eq!(parse_level("trace"), Some(Level::Trace));
    assert_eq!(parse_level("DEBUG"), Some(Level::Debug));
    assert_eq!(parse_level("Info"), Some(Level::Info));
    assert_eq!(parse_level("wArN"), Some(Level::Warn));
    assert_eq!(parse_level("ERROR"), Some(Level::Error));
}

#[test]
fn unknown_level_names_are_rejected() {
    assert_eq!(parse_level(""), None);
    assert_eq!(parse_level("inf"), None);
    assert_eq!(parse_level("information"), None);
    assert_eq!(parse_level("off"), None);
    assert_eq!(parse_level("warn "), None);
}

#[test]
fn level_ranks_are_ordered() {
    assert!(Level::Error.passes(Level::Info));
    assert!(Level::Info.passes(Level::Info));
    assert!(!Level::Debug.passes(Level::Info));
    assert!(!Level::Trace.passes(Level::Debug));
    assert!(Level::Warn.passes(Level::Trace));
}

#[test]
fn case_insensitive_comparison() {
    assert!(str_eq_ignore_case("JSON", "json"));
    assert!(str_eq_ignore_case("jSoN", "Json"));
    assert!(!str_eq_ignore_case("json", "jsonl"));
    assert!(!str_eq_ignore_case("", "a"));
    assert!(str_eq_ignore_case("", ""));
}

#[test]
fn format_defaults_to_compact() {
    assert_eq!(resolve_format(None), OutputFormat::Compact);
    assert_eq!(resolve_format(Some("")), OutputFormat::Compact);
    assert_eq!(resolve_format(Some("text")), OutputFormat::Compact);
    assert_eq!(resolve_format(Some("jsonl")), OutputFormat::Compact);
}

#[test]
fn format_json_is_recognized_in_any_case() {
    assert_eq!(resolve_format(Some("json")), OutputFormat::Json);
    assert_eq!(resolve_format(Some("JSON")), OutputFormat::Json);
    assert_eq!(resolve_format(Some("Json")), OutputFormat::Json);
    assert_eq!(resolve_format(Some("jSoN")), OutputFormat::Json);
}

#[test]
fn format_names_match_the_confirmation_record() {
    assert_eq!(format_name(OutputFormat::Json), "json");
    assert_eq!(format_name(OutputFormat::Compact), "compact");
}

#[test]
fn thread_tagging_and_span_close_hold_for_every_format() {
    for f in [OutputFormat::Compact, OutputFormat::Json] {
        let o = fmt_options(f);
        assert!(o.thread_ids);
        assert!(o.thread_names);
        assert!(o.span_close_events);
        assert!(o.show_target);
    }
}

#[test]
fn span_context_is_json_only() {
    assert!(fmt_options(OutputFormat::Json).span_context);
    assert!(!fmt_options(OutputFormat::Compact).span_context);
}
