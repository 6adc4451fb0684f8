use clickhouse_binding::surface::Surface;
use clickhouse_binding::types::{
    count_bind_placeholders, default_list_page_size, is_safe_sql_identifier, validate_completion,
    validate_list_query, ClickHouseAuth, ClickHouseOperation, ClickHouseQueryConfig, ClickHouseTls,
    CompletionConfig, ListQueryConfig, ListQueryMode,
};

#[test]
fn validate_list_query_enforces_bounds_and_cursor() {
    let mut cfg = ListQueryConfig {
        sql: "SELECT id AS uri FROM t".into(),
        mode: ListQueryMode::Keyset,
        cursor_column: None,
        page_size: 100,
    };
    assert!(
        validate_list_query(&cfg).is_err(),
        "keyset needs cursor_column"
    );
    cfg.cursor_column = Some("id".into());
    assert!(validate_list_query(&cfg).is_ok());
    cfg.cursor_column = Some("id; DROP TABLE t".into());
    assert!(
        validate_list_query(&cfg).is_err(),
        "unsafe cursor identifier"
    );
    cfg.cursor_column = Some("id".into());
    cfg.page_size = 0;
    assert!(validate_list_query(&cfg).is_err(), "page_size out of range");
    cfg.page_size = 100;
    cfg.sql = "  ".into();
    assert!(validate_list_query(&cfg).is_err(), "empty sql");
}

#[test]
fn validate_list_query_offset_mode_skips_cursor() {
    let cfg = ListQueryConfig {
        sql: "SELECT id AS uri FROM t LIMIT ? OFFSET ?".into(),
        mode: ListQueryMode::Offset,
        cursor_column: None,
        page_size: 100,
    };
    assert!(validate_list_query(&cfg).is_ok());
}

#[test]
fn validate_completion_requires_single_placeholder() {
    let mut cc = CompletionConfig {
        sql: "SELECT name FROM t WHERE name LIKE concat(?, '%')".into(),
        max_results: None,
    };
    assert!(validate_completion("name", &cc).is_ok());
    cc.sql = "SELECT name FROM t".into();
    assert!(validate_completion("name", &cc).is_err(), "needs one ?");
    cc.sql = "SELECT name FROM t WHERE a = ? AND b = ?".into();
    assert!(validate_completion("name", &cc).is_err(), "exactly one ?");
    cc.sql = "  ".into();
    assert!(validate_completion("name", &cc).is_err(), "empty sql");
}

#[test]
fn count_bind_placeholders_ignores_escaped_pairs() {
    assert_eq!(count_bind_placeholders("SELECT ? FROM t"), 1);
    assert_eq!(count_bind_placeholders("SELECT '??' FROM t WHERE x = ?"), 1);
    assert_eq!(count_bind_placeholders("SELECT '??' FROM t"), 0);
    assert_eq!(count_bind_placeholders("a = ? AND b = ?"), 2);
}

#[test]
fn placeholders_are_read_from_the_left() {
    assert_eq!(count_bind_placeholders(""), 0);
    assert_eq!(count_bind_placeholders("???"), 1);
    assert_eq!(count_bind_placeholders("????"), 0);
    assert_eq!(count_bind_placeholders("a?? ???b?"), 2);
    assert_eq!(count_bind_placeholders("\u{e9}?\u{e9}"), 1);
}

#[test]
fn listing_errors_are_told() {
    let mut cfg = ListQueryConfig {
        sql: "SELECT 1".to_owned(),
        mode: ListQueryMode::Keyset,
        cursor_column: Some("  ".to_owned()),
        page_size: 1_001,
    };
    assert_eq!(
        validate_list_query(&cfg).unwrap_err(),
        "list_query.page_size (1001) must be in 1..=1000"
    );
    cfg.page_size = 1_000;
    assert_eq!(
        validate_list_query(&cfg).unwrap_err(),
        "list_query.cursor_column is required for mode: keyset"
    );
    cfg.cursor_column = Some(" 1st ".to_owned());
    assert_eq!(
        validate_list_query(&cfg).unwrap_err(),
        "list_query.cursor_column '1st' is not a safe SQL identifier"
    );
    cfg.cursor_column = Some(" _first1 ".to_owned());
    assert!(validate_list_query(&cfg).is_ok());
    cfg.sql = "\t\n".to_owned();
    assert_eq!(
        validate_list_query(&cfg).unwrap_err(),
        "list_query.sql must not be empty"
    );
}

#[test]
fn completion_errors_are_told() {
    let mut cc = CompletionConfig {
        sql: " ".to_owned(),
        max_results: Some(1),
    };
    assert_eq!(
        validate_completion("v", &cc).unwrap_err(),
        "variable_completions.v.sql must not be empty"
    );
    cc.sql = "SELECT '??'".to_owned();
    assert_eq!(
        validate_completion("v", &cc).unwrap_err(),
        "variable_completions.v.sql must reference exactly one `?` placeholder (bound to the typed prefix)"
    );
}

#[test]
fn identifiers_are_words_that_begin_with_no_digit() {
    assert!(is_safe_sql_identifier("_"));
    assert!(is_safe_sql_identifier("Ab_9"));
    assert!(!is_safe_sql_identifier(""));
    assert!(!is_safe_sql_identifier("9a"));
    assert!(!is_safe_sql_identifier("a-b"));
    assert!(!is_safe_sql_identifier("\u{e9}"));
}

#[test]
fn defaults_are_safe() {
    let query = ClickHouseQueryConfig::default();
    assert_eq!(query.max_execution_time_ms, 30_000);
    assert_eq!(query.max_result_rows, 100_000);
    assert!(query.read_only);
    assert!(query.settings.is_empty());
    assert!(ClickHouseTls::default().verify_peer);
    assert!(ClickHouseAuth::default().username.is_none());
    assert!(ClickHouseAuth::default().password.is_none());
    assert_eq!(ClickHouseOperation::default(), ClickHouseOperation::Query);
    assert_eq!(ListQueryMode::default(), ListQueryMode::Keyset);
    assert_eq!(Surface::default(), Surface::Tool);
    assert_eq!(default_list_page_size(), 100);
}

#[test]
fn words_of_operations_and_surfaces() {
    assert_eq!(ClickHouseOperation::Query.as_str(), "query");
    assert_eq!(ClickHouseOperation::ListTables.as_str(), "list_tables");
    assert_eq!(ClickHouseOperation::ListColumns.as_str(), "list_columns");
    for operation in [
        ClickHouseOperation::Query,
        ClickHouseOperation::ListTables,
        ClickHouseOperation::ListColumns,
    ] {
        assert_eq!(
            ClickHouseOperation::from_word(operation.as_str()),
            Some(operation)
        );
    }
    assert_eq!(ClickHouseOperation::from_word("Query"), None);
    assert_eq!(ClickHouseOperation::from_word(""), None);
    assert!(!ClickHouseOperation::Query.is_catalog());
    assert!(ClickHouseOperation::ListTables.is_catalog());
    assert!(ClickHouseOperation::ListColumns.is_catalog());
    assert_eq!(Surface::Tool.as_str(), "tool");
    assert_eq!(Surface::Resource.as_str(), "resource");
    assert_eq!(Surface::Prompt.as_str(), "prompt");
}
