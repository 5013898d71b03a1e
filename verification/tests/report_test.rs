use icon_export::export::ExportStats;
use icon_export::report::{format_elapsed, panic_message, progress_message};

#[test]
fn elapsed_times() {
    assert_eq!(format_elapsed(0, 0), "0.000s");
    assert_eq!(format_elapsed(59, 7), "59.007s");
    assert_eq!(format_elapsed(60, 42), "1m 0.042s");
    assert_eq!(format_elapsed(3599, 999), "59m 59.999s");
    assert_eq!(format_elapsed(3600, 0), "1h 0m 0.000s");
    assert_eq!(format_elapsed(100 * 3600 + 23 * 60 + 4, 500), "100h 23m 4.500s");
}

#[test]
fn progress_line() {
    let stats = ExportStats {
        found: 10,
        converted: 4,
        archived: 3,
        duplicates: 2,
        skipped_existing: 1,
        errors: 0,
    };
    assert_eq!(
        progress_message(stats),
        "found:10 converted:4 archived:3 dup:2 exists:1 err:0"
    );
}

#[test]
fn panic_messages() {
    assert_eq!(panic_message(Some("literal"), None), "literal");
    assert_eq!(panic_message(None, Some("owned")), "owned");
    assert_eq!(panic_message(Some("literal"), Some("owned")), "literal");
    assert_eq!(panic_message(None, None), "unknown panic payload");
}
