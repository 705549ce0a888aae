use cs2ts::processor::ProcessingStats;
use cs2ts::summary::to_decimal;

#[test]
fn numbers_are_written_in_decimal() {
    assert_eq!(to_decimal(0), "0");
    assert_eq!(to_decimal(7), "7");
    assert_eq!(to_decimal(10), "10");
    assert_eq!(to_decimal(109), "109");
    assert_eq!(to_decimal(1234567890), "1234567890");
    assert_eq!(to_decimal(usize::MAX), usize::MAX.to_string());
}

#[test]
fn the_summary_has_a_line_for_each_counter() {
    let stats = ProcessingStats {
        files_processed: 12,
        enums_generated: 3,
        schemas_generated: 40,
        files_skipped: 0,
    };
    let lines = stats.summary();
    assert_eq!(
        lines,
        vec![
            ("├─ Files processed: ".to_string(), "12".to_string()),
            ("├─ Enums generated: ".to_string(), "3".to_string()),
            ("├─ Schemas generated: ".to_string(), "40".to_string()),
            ("└─ Files skipped: ".to_string(), "0".to_string()),
        ]
    );
}

#[test]
fn the_counters_start_at_zero() {
    let stats = ProcessingStats::default();
    assert_eq!(stats.files_processed, 0);
    assert_eq!(stats.enums_generated, 0);
    assert_eq!(stats.schemas_generated, 0);
    assert_eq!(stats.files_skipped, 0);
}
