use ds_common_logger::guard::InitGuard;
use ds_common_logger::level::Level;
use ds_common_logger::panic_report::panic_record;

#[test]
fn panic_record_carries_location_and_payload() {
    let r = panic_record(Some(("src/app.rs", 42)), "boom");
    assert_eq!(r.level, Level::Error);
    assert_eq!(r.location.as_str(), "src/app.rs:42");
    assert_eq!(r.payload.as_str(), "boom");
    assert_eq!(r.message.as_str(), "Application panicked");
    assert!(!r.location.is_empty());
}

#[test]
fn panic_record_without_location_says_unknown() {
    let r = panic_record(None, "boom");
    assert_eq!(r.location.as_str(), "unknown");
    assert_eq!(r.level, Level::Error);
    assert!(!r.location.is_empty());
}

#[test]
fn panic_record_renders_line_numbers_in_decimal() {
    assert_eq!(panic_record(Some(("f.rs", 0)), "p").location.as_str(), "f.rs:0");
    assert_eq!(panic_record(Some(("f.rs", 7)), "p").location.as_str(), "f.rs:7");
    assert_eq!(panic_record(Some(("f.rs", 120)), "p").location.as_str(), "f.rs:120");
    assert_eq!(
        panic_record(Some(("f.rs", 4294967295)), "p").location.as_str(),
        "f.rs:4294967295"
    );
}

#[test]
fn first_call_runs_the_installation() {
    let mut g = InitGuard::new();
    assert!(g.begin());
}

#[test]
fn repeated_calls_run_the_installation_exactly_once() {
    let mut g = InitGuard::new();
    let mut runs = 0;
    for _ in 0..10 {
        if g.begin() {
            runs += 1;
        }
    }
    assert_eq!(runs, 1);
}
