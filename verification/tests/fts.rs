use vipune::sqlite::fts::{
    check_content_table, check_migration, escape_fts_query, index_is_ready, plan_lexical_search,
    plan_migration, split_words, LexicalPlan, MigrationPlan,
};
use vipune::sqlite::Error;
use vipune::text::chars_of;

/// The same escaping written with the string methods of std.
fn reference(query: &str) -> String {
    query
        .split_whitespace()
        .filter(|word| !word.is_empty())
        .map(|word| {
            let escaped = word.replace('\\', "\\\\").replace('"', "\"\"");
            format!("\"{}\"", escaped)
        })
        .collect::<Vec<_>>()
        .join(" ")
}

#[test]
fn queries_become_quoted_phrases() {
    assert_eq!(escape_fts_query("rust"), "\"rust\"");
    assert_eq!(escape_fts_query("rust programming"), "\"rust\" \"programming\"");
    assert_eq!(escape_fts_query("  where   does\talice\nwork "), "\"where\" \"does\" \"alice\" \"work\"");
    assert_eq!(escape_fts_query("test with \"quotes\""), "\"test\" \"with\" \"\"\"quotes\"\"\"");
    assert_eq!(escape_fts_query("with\\slash"), "\"with\\\\slash\"");
    assert_eq!(escape_fts_query("café résumé 日本語"), "\"café\" \"résumé\" \"日本語\"");
    assert_eq!(escape_fts_query("a* OR b NOT (c) NEAR/2 col:x"), "\"a*\" \"OR\" \"b\" \"NOT\" \"(c)\" \"NEAR/2\" \"col:x\"");
}

#[test]
fn queries_without_words_become_nothing() {
    for q in ["", " ", "\t\n", "\u{3000}\u{2003}"] {
        assert_eq!(escape_fts_query(q), "");
    }
}

#[test]
fn escaping_agrees_with_std() {
    let cases = [
        "\"",
        "\\",
        "\\\"",
        "\"\"",
        " \" ",
        "a\"b\\c d\\\\e",
        "x\u{00A0}y",
        "x\u{200b}y",
        "tab\tseparated\u{85}next",
        "trailing ",
        " leading",
        "'apos' -dash +plus ^caret",
    ];
    for q in cases {
        assert_eq!(escape_fts_query(q), reference(q), "for {:?}", q);
    }
}

#[test]
fn words_are_runs_without_whitespace() {
    let words = |s: &str| -> Vec<String> {
        split_words(&chars_of(s)).iter().map(|w| w.iter().collect()).collect()
    };
    assert_eq!(words("a bc  d"), vec!["a", "bc", "d"]);
    assert_eq!(words(" x "), vec!["x"]);
    assert!(words("").is_empty());
    assert!(words(" \n ").is_empty());
    for s in ["one", "two words", "  three  more words\t", "日本 語"] {
        let expected: Vec<String> = s.split_whitespace().map(|w| w.to_string()).collect();
        assert_eq!(words(s), expected);
    }
}

#[test]
fn keyword_search_is_planned() {
    match plan_lexical_search("rust lang", 10).unwrap() {
        LexicalPlan::Match(expr) => assert_eq!(expr, "\"rust\" \"lang\""),
        other => panic!("unexpected: {:?}", other),
    }
    assert!(matches!(plan_lexical_search("", 10), Ok(LexicalPlan::Empty)));
    assert!(matches!(plan_lexical_search("   ", 10_000), Ok(LexicalPlan::Empty)));
    assert!(matches!(plan_lexical_search("test", 0), Err(Error::InvalidLimit(_))));
    assert!(matches!(plan_lexical_search("test", 100_000), Err(Error::InvalidLimit(_))));
    assert!(matches!(plan_lexical_search("", 0), Err(Error::InvalidLimit(_))));
}

#[test]
fn index_answers_once_it_holds_rows() {
    assert!(!index_is_ready(0, 0));
    assert!(!index_is_ready(0, 5));
    assert!(!index_is_ready(1, 0));
    assert!(index_is_ready(1, 1));
    assert!(index_is_ready(1, 300));
}

#[test]
fn migration_is_planned_from_what_is_found() {
    assert_eq!(plan_migration(false, false), MigrationPlan::Create);
    assert_eq!(plan_migration(false, true), MigrationPlan::Create);
    assert_eq!(plan_migration(true, false), MigrationPlan::Rebuild);
    assert_eq!(plan_migration(true, true), MigrationPlan::Keep);
}

#[test]
fn migration_commits_only_on_equal_counts() {
    assert!(check_migration(0, 0).is_ok());
    assert!(check_migration(3, 3).is_ok());
    match check_migration(3, 2) {
        Err(Error::Sqlite(msg)) => {
            assert_eq!(msg, "FTS5 migration incomplete: expected 3 rows, got 2 rows")
        }
        other => panic!("unexpected: {:?}", other),
    }
    match check_migration(0, 17) {
        Err(Error::Sqlite(msg)) => {
            assert_eq!(msg, "FTS5 migration incomplete: expected 0 rows, got 17 rows")
        }
        other => panic!("unexpected: {:?}", other),
    }
}

#[test]
fn migration_needs_the_record_table() {
    assert!(check_content_table(true).is_ok());
    match check_content_table(false) {
        Err(Error::Sqlite(msg)) => {
            assert_eq!(msg, "External content table 'memories' does not exist")
        }
        other => panic!("unexpected: {:?}", other),
    }
}

#[test]
fn fts_test_fts5_limit_validation() {
    assert!(plan_lexical_search("test", 0).is_err());
    assert!(plan_lexical_search("test", 100_000).is_err());
}

#[test]
fn fts_test_fts5_empty_query() {
    let plan = plan_lexical_search("", 10).unwrap();
    assert!(matches!(plan, LexicalPlan::Empty));
}
