use vipune::errors::Error;
use vipune::import::{parse_format, ImportFormat, ImportStats};

#[test]
fn test_import_stats_default() {
    let stats = ImportStats::new();
    assert_eq!(stats.total_memories, 0);
    assert_eq!(stats.imported_memories, 0);
    assert_eq!(stats.skipped_duplicates, 0);
    assert_eq!(stats.skipped_corrupted, 0);
    assert!(stats.projects.is_empty());
}

#[test]
fn rows_are_counted_and_projects_listed_once() {
    let mut stats = ImportStats::default();
    stats.record_row("default");
    stats.record_row("alpha");
    stats.record_row("default");
    stats.record_row("");
    stats.record_row("alpha");
    assert_eq!(stats.total_memories, 5);
    assert_eq!(stats.projects, vec!["default".to_string(), "alpha".to_string(), String::new()]);
    assert_eq!(stats.imported_memories, 0);
    assert_eq!(stats.skipped_duplicates, 0);
    assert_eq!(stats.skipped_corrupted, 0);
    stats.total_memories = usize::MAX;
    stats.record_row("beta");
    assert_eq!(stats.total_memories, usize::MAX);
    assert_eq!(stats.projects.len(), 4);
}

#[test]
fn import_formats() {
    assert_eq!(parse_format("sqlite", false).unwrap(), ImportFormat::Sqlite);
    assert_eq!(parse_format("sqlite", true).unwrap(), ImportFormat::Sqlite);
    assert_eq!(parse_format("json", false).unwrap(), ImportFormat::Json);
    match parse_format("json", true) {
        Err(Error::InvalidInput(msg)) => assert_eq!(msg, "Dry run not supported for JSON import"),
        other => panic!("unexpected: {:?}", other),
    }
    for bad in ["", "JSON", "sqlite ", "csv"] {
        match parse_format(bad, false) {
            Err(Error::InvalidInput(msg)) => assert_eq!(
                msg,
                format!("Invalid format '{}': must be 'sqlite' or 'json'", bad)
            ),
            other => panic!("unexpected: {:?}", other),
        }
    }
}
