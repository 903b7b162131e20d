use ds_common_logger::filter::{parse_filter, FilterSpec};
use ds_common_logger::level::Level;

#[test]
fn single_level_directive_parses() {
    let f = parse_filter("debug").expect("inside the grammar");
    assert_eq!(f.default_level, Some(Level::Debug));
    assert_eq!(f.modules.len(), 0);
}

#[test]
fn mixed_directive_parses() {
    let f = parse_filter("debug,my_crate::module=info").expect("inside the grammar");
    assert_eq!(f.default_level, Some(Level::Debug));
    assert_eq!(f.modules.len(), 1);
    assert_eq!(f.modules[0].module.as_str(), "my_crate::module");
    assert_eq!(f.modules[0].level, Level::Info);
}

#[test]
fn module_only_directive_has_no_global_level() {
    let f = parse_filter("my_crate=warn").expect("inside the grammar");
    assert_eq!(f.default_level, None);
    assert_eq!(f.modules.len(), 1);
}

#[test]
fn later_global_level_wins() {
    let f = parse_filter("info,trace").expect("inside the grammar");
    assert_eq!(f.default_level, Some(Level::Trace));
}

#[test]
fn directives_outside_the_grammar_are_rejected() {
    assert!(parse_filter("").is_none());
    assert!(parse_filter("bogus").is_none());
    assert!(parse_filter("info,").is_none());
    assert!(parse_filter("=info").is_none());
    assert!(parse_filter("my_crate=").is_none());
    assert!(parse_filter("my_crate=loud").is_none());
    assert!(parse_filter("a=b=c").is_none());
    assert!(parse_filter("my crate=info").is_none());
}

#[test]
fn default_filter_passes_exactly_info_and_above() {
    let f = FilterSpec::info_default();
    let visible = [Level::Trace, Level::Debug, Level::Info, Level::Warn, Level::Error]
        .iter()
        .filter(|l| f.enabled("any_target", **l))
        .count();
    assert_eq!(visible, 3);
    assert!(!f.enabled("any_target", Level::Trace));
    assert!(!f.enabled("any_target", Level::Debug));
    assert!(f.enabled("any_target", Level::Info));
    assert!(f.enabled("any_target", Level::Warn));
    assert!(f.enabled("any_target", Level::Error));
}

#[test]
fn module_override_applies_to_the_module_and_below() {
    let f = parse_filter("info,my_crate=debug").expect("inside the grammar");
    assert!(f.enabled("my_crate", Level::Debug));
    assert!(f.enabled("my_crate::inner", Level::Debug));
    assert!(!f.enabled("other", Level::Debug));
    assert!(f.enabled("other", Level::Info));
}

#[test]
fn module_prefix_needs_a_path_boundary() {
    let f = parse_filter("info,my_crate=trace").expect("inside the grammar");
    assert!(!f.enabled("my_crate2", Level::Trace));
    assert!(!f.enabled("my_crate:x", Level::Trace));
    assert!(f.enabled("my_crate::x", Level::Trace));
}

#[test]
fn longest_matching_override_wins() {
    let f = parse_filter("warn,a=error,a::b=debug").expect("inside the grammar");
    assert!(f.enabled("a::b", Level::Debug));
    assert!(f.enabled("a::b::c", Level::Debug));
    assert!(!f.enabled("a", Level::Debug));
    assert!(!f.enabled("a::c", Level::Warn));
    assert!(f.enabled("a::c", Level::Error));
}

#[test]
fn later_override_of_equal_length_wins() {
    let f = parse_filter("ab=error,ab=debug").expect("inside the grammar");
    assert!(f.enabled("ab", Level::Debug));
}

#[test]
fn no_default_and_no_match_suppresses_everything() {
    let f = parse_filter("my_crate=trace").expect("inside the grammar");
    assert!(!f.enabled("other", Level::Error));
    assert!(f.enabled("my_crate", Level::Trace));
}
