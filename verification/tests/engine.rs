use clickhouse_binding::engine::{
    build_client, build_list_columns_query, build_list_tables_query, list_columns_columns,
    list_tables_columns, nonempty, parse_json_each_row, prepare_query, settle, DriverFailure,
    DriverReply,
};
use clickhouse_binding::params::ChBind;
use serde_json::Value;

fn doc(text: &str) -> Value {
    serde_json::from_str(text).expect("document")
}

fn sent(statement: &str, binds: &[ChBind]) -> String {
    let client = build_client("http://localhost:8123", None, None, None);
    let prepared = prepare_query(&client, statement, binds, true, 1_000, &[]);
    assert!(prepared.fetches);
    prepared.query.sql_display().to_string()
}

#[test]
fn parses_json_each_row_objects() {
    let body = b"{\"id\":1,\"name\":\"alice\"}\n{\"id\":2,\"name\":\"bob\"}\n";
    let oc = parse_json_each_row(body, 1_000).expect("parse");
    assert_eq!(oc.row_count, 2);
    assert!(!oc.truncated);
    assert_eq!(oc.rows[0], doc("{ \"id\": 1, \"name\": \"alice\" }"));
    assert_eq!(oc.rows[1], doc("{ \"id\": 2, \"name\": \"bob\" }"));
}

#[test]
fn parses_empty_body_as_zero_rows() {
    let oc = parse_json_each_row(b"", 1_000).expect("parse");
    assert_eq!(oc.row_count, 0);
    assert!(oc.rows.is_empty());
    assert!(!oc.truncated);
}

#[test]
fn skips_blank_lines() {
    let body = b"{\"a\":1}\n\n  \n{\"a\":2}\n";
    let oc = parse_json_each_row(body, 1_000).expect("parse");
    assert_eq!(oc.row_count, 2);
}

#[test]
fn max_rows_cap_sets_truncated_and_exact_count() {
    let body = b"{\"n\":0}\n{\"n\":1}\n{\"n\":2}\n{\"n\":3}\n{\"n\":4}\n";
    let oc = parse_json_each_row(body, 3).expect("parse");
    assert_eq!(oc.rows.len(), 3);
    assert!(oc.truncated);
    assert_eq!(oc.row_count, 5);
}

#[test]
fn non_object_row_is_rejected() {
    let body = b"42\n";
    assert!(parse_json_each_row(body, 10).is_err());
}

#[test]
fn malformed_json_is_rejected() {
    let body = b"{not json}\n";
    assert!(parse_json_each_row(body, 10).is_err());
}

#[test]
fn client_builds_without_connecting() {
    let _c = build_client(
        "http://localhost:8123",
        Some("analytics"),
        Some("reader"),
        Some("pw"),
    );
}

#[test]
fn client_builds_with_minimal_args() {
    let _c = build_client("https://localhost:8443", None, None, None);
}

#[test]
fn list_tables_query_binds_database_filter_as_param() {
    let q = build_list_tables_query(Some("analytics"), 500);
    assert!(q.sql.contains("FROM system.tables"));
    assert!(q.sql.contains("WHERE database = ?"));
    assert!(
        !q.sql.contains("analytics"),
        "filter must not be interpolated: {}",
        q.sql
    );
    assert!(q.sql.ends_with("LIMIT ?"));
    assert_eq!(
        q.binds,
        vec![ChBind::Str("analytics".to_owned()), ChBind::Int(500)]
    );
}

#[test]
fn list_tables_query_without_filter_lists_all_databases() {
    let q = build_list_tables_query(None, 100);
    assert!(!q.sql.contains("WHERE"), "{}", q.sql);
    assert_eq!(q.binds, vec![ChBind::Int(100)]);
    let q2 = build_list_tables_query(Some("   "), 100);
    assert_eq!(q2.binds, vec![ChBind::Int(100)]);
}

#[test]
fn list_columns_query_binds_table_and_database_as_params() {
    let q = build_list_columns_query(Some("analytics"), Some("events"), 1000);
    assert!(q.sql.contains("FROM system.columns"));
    assert!(q.sql.contains("WHERE database = ? AND table = ?"));
    assert!(
        !q.sql.contains("analytics") && !q.sql.contains("events"),
        "filters must not be interpolated: {}",
        q.sql
    );
    assert!(q.sql.ends_with("LIMIT ?"));
    assert_eq!(
        q.binds,
        vec![
            ChBind::Str("analytics".to_owned()),
            ChBind::Str("events".to_owned()),
            ChBind::Int(1000),
        ]
    );
}

#[test]
fn list_columns_query_table_only_filter() {
    let q = build_list_columns_query(None, Some("events"), 50);
    assert!(q.sql.contains("WHERE table = ?"));
    assert!(!q.sql.contains("database = ?"), "{}", q.sql);
    assert_eq!(
        q.binds,
        vec![ChBind::Str("events".to_owned()), ChBind::Int(50)]
    );
}

#[test]
fn marshals_fabricated_list_tables_rows() {
    let body = b"{\"database\":\"analytics\",\"name\":\"events\",\"engine\":\"MergeTree\",\"total_rows\":1000,\"total_bytes\":4096}\n";
    let oc = parse_json_each_row(body, 1_000).expect("parse");
    assert_eq!(oc.row_count, 1);
    assert_eq!(oc.rows[0]["database"], doc("\"analytics\""));
    assert_eq!(oc.rows[0]["name"], doc("\"events\""));
    assert_eq!(oc.rows[0]["engine"], doc("\"MergeTree\""));
    assert_eq!(oc.rows[0]["total_rows"], doc("1000"));
}

#[test]
fn marshals_fabricated_list_columns_rows() {
    let body = b"{\"database\":\"analytics\",\"table\":\"events\",\"name\":\"ts\",\"type\":\"DateTime\",\"position\":1,\"default_kind\":\"\"}\n";
    let oc = parse_json_each_row(body, 1_000).expect("parse");
    assert_eq!(oc.rows[0]["table"], doc("\"events\""));
    assert_eq!(oc.rows[0]["name"], doc("\"ts\""));
    assert_eq!(oc.rows[0]["type"], doc("\"DateTime\""));
    assert_eq!(oc.rows[0]["position"], doc("1"));
}

#[test]
fn run_query_with_settings_applies_options_offline() {
    let client = build_client("http://127.0.0.1:1", None, None, None);
    let settings = vec![
        ("max_threads".to_owned(), "2".to_owned()),
        ("readonly".to_owned(), "1".to_owned()),
    ];
    let prepared = prepare_query(&client, "SELECT 1", &[], true, 50, &settings);
    assert!(prepared.fetches);
    let runtime = tokio::runtime::Builder::new_current_thread()
        .enable_all()
        .build()
        .expect("runtime");
    let reply = runtime.block_on(async {
        let mut cursor = prepared
            .query
            .fetch_bytes("JSONEachRow")
            .map_err(|e| DriverFailure::Query(e.to_string()))?;
        let bytes = cursor
            .collect()
            .await
            .map_err(|e| DriverFailure::Response(e.to_string()))?;
        Ok::<DriverReply, DriverFailure>(DriverReply::Fetched(bytes.to_vec()))
    });
    let out = settle(reply, 10);
    assert!(
        out.is_err(),
        "expected a transport error against a dead port"
    );
}

#[test]
fn catalog_statements_are_exact() {
    assert_eq!(
        build_list_tables_query(Some(" analytics\t"), 5).sql,
        "SELECT database, name, engine, total_rows, total_bytes FROM system.tables WHERE database = ? ORDER BY database, name LIMIT ?"
    );
    assert_eq!(
        build_list_tables_query(Some(" analytics\t"), 5).binds,
        vec![ChBind::Str("analytics".to_owned()), ChBind::Int(5)]
    );
    assert_eq!(
        build_list_tables_query(None, 5).sql,
        "SELECT database, name, engine, total_rows, total_bytes FROM system.tables ORDER BY database, name LIMIT ?"
    );
    assert_eq!(
        build_list_columns_query(Some("d"), None, 5).sql,
        "SELECT database, table, name, type, position, default_kind FROM system.columns WHERE database = ? ORDER BY database, table, position LIMIT ?"
    );
    assert_eq!(
        build_list_columns_query(None, Some(""), 5).sql,
        "SELECT database, table, name, type, position, default_kind FROM system.columns ORDER BY database, table, position LIMIT ?"
    );
    assert_eq!(
        list_tables_columns(),
        vec!["database", "name", "engine", "total_rows", "total_bytes"]
    );
    assert_eq!(
        list_columns_columns(),
        vec!["database", "table", "name", "type", "position", "default_kind"]
    );
    assert_eq!(nonempty(Some("\u{3000} a b \u{85}")), Some("a b"));
    assert_eq!(nonempty(Some("\u{2003}")), None);
    assert_eq!(nonempty(None), None);
}

#[test]
fn values_fill_placeholders_in_order() {
    let number = match doc("2.5") {
        Value::Number(n) => n,
        _ => unreachable!(),
    };
    let text = sent(
        "SELECT ?, ?, ?, ?, ?, 'really??' FROM t",
        &[
            ChBind::Null,
            ChBind::Int(-7),
            ChBind::Float(number),
            ChBind::Bool(true),
            ChBind::Str("x".to_owned()),
        ],
    );
    assert_eq!(text, "SELECT NULL, -7, 2.5, true, 'x', 'really?' FROM t");
}

#[test]
fn unfilled_placeholders_remain() {
    assert_eq!(
        sent("a = ? AND b = ?", &[ChBind::Int(1)]),
        "a = 1 AND b = ?"
    );
    assert_eq!(sent("SELECT ?fields, ?", &[ChBind::Bool(false)]), "SELECT ?fields, false");
}

#[test]
fn surplus_value_spoils_the_query() {
    assert_eq!(
        sent("a = ?", &[ChBind::Int(1), ChBind::Int(2)]),
        "invalid SQL: unexpected bind(), all arguments are already bound"
    );
}

#[test]
fn bound_text_is_escaped() {
    assert_eq!(
        sent("x = ?", &[ChBind::Str("a'; DROP TABLE t; --".to_owned())]),
        "x = 'a\\'; DROP TABLE t; --'"
    );
    assert_eq!(
        sent("x = ?", &[ChBind::Str("\\`\t\n?".to_owned())]),
        "x = '\\\\\\`\\\t\\\n?'"
    );
    assert_eq!(
        sent("x = ? AND y = ?", &[ChBind::Str("?".to_owned()), ChBind::Int(3)]),
        "x = '?' AND y = 3"
    );
}

#[test]
fn a_write_is_executed_rather_than_fetched() {
    let client = build_client("http://localhost:8123", None, None, None);
    let prepared = prepare_query(
        &client,
        "INSERT INTO t VALUES (?)",
        &[ChBind::Int(9_223_372_036_854_775_807)],
        false,
        0,
        &[],
    );
    assert!(!prepared.fetches);
    assert_eq!(
        prepared.query.sql_display().to_string(),
        "INSERT INTO t VALUES (9223372036854775807)"
    );
}

#[test]
fn response_errors_are_told() {
    assert_eq!(
        parse_json_each_row(b"{\"a\":1}\r\n 42 \n", 10).unwrap_err(),
        "ClickHouse JSONEachRow row is not a JSON object: 42"
    );
    let message = parse_json_each_row(b"{\"a\":1}\n{not json}\n7\n", 10).unwrap_err();
    assert!(
        message.starts_with("ClickHouse JSONEachRow parse failed: key must be a string"),
        "{message}"
    );
    assert_eq!(
        parse_json_each_row(b"\xff", 10).unwrap_err(),
        "ClickHouse response is not valid UTF-8: invalid utf-8 sequence of 1 bytes from index 0"
    );
}

#[test]
fn rows_beyond_the_cap_are_checked() {
    assert!(parse_json_each_row(b"{\"a\":1}\n[]\n", 1).is_err());
    let oc = parse_json_each_row(b"{\"a\":1}\n", 0).expect("parse");
    assert!(oc.rows.is_empty());
    assert!(oc.truncated);
    assert_eq!(oc.row_count, 1);
    let wide = "{\"a\":\"\u{10a0a}\"}\n\n{\"b\":\"\u{20ac}\"}";
    let oc = parse_json_each_row(wide.as_bytes(), 9).expect("parse");
    assert_eq!(
        oc.rows,
        vec![doc("{\"a\":\"\u{10a0a}\"}"), doc("{\"b\":\"\u{20ac}\"}")]
    );
    let full = parse_json_each_row(b"{\"a\":1}", 1).expect("parse");
    assert!(!full.truncated);
    assert_eq!(full.rows, vec![doc("{\"a\":1}")]);
}

#[test]
fn settling_follows_the_driver() {
    assert_eq!(
        settle(Err(DriverFailure::Query("refused".to_owned())), 1).unwrap_err(),
        "ClickHouse query failed: refused"
    );
    assert_eq!(
        settle(Err(DriverFailure::Response("cut off".to_owned())), 1).unwrap_err(),
        "ClickHouse response read failed: cut off"
    );
    assert_eq!(
        settle(Err(DriverFailure::TimedOut), 1).unwrap_err(),
        "ClickHouse call timed out"
    );
    let executed = settle(Ok(DriverReply::Executed), 0).expect("outcome");
    assert!(executed.rows.is_empty());
    assert!(!executed.truncated);
    assert_eq!(executed.row_count, 0);
    let fetched = settle(Ok(DriverReply::Fetched(b"{\"a\":1}\n{\"a\":2}".to_vec())), 1);
    let fetched = fetched.expect("outcome");
    assert_eq!(fetched.rows, vec![doc("{\"a\":1}")]);
    assert!(fetched.truncated);
    assert_eq!(fetched.row_count, 2);
}

/// Whether the driver can make a request of a query. It cannot where the address,
/// with the database and the settings in it, is no URL or too long for one, or
/// where the credentials cannot stand in a header.
fn makes_a_request(client: &clickhouse::Client, settings: &[(String, String)]) -> bool {
    let runtime = tokio::runtime::Builder::new_current_thread()
        .enable_all()
        .build()
        .expect("runtime");
    let _entered = runtime.enter();
    prepare_query(client, "SELECT 1", &[], true, 1_000, settings)
        .query
        .fetch_bytes("JSONEachRow")
        .is_ok()
}

#[test]
fn a_request_holds_what_the_client_was_given() {
    let url = "http://127.0.0.1:1";
    let long = "x".repeat(70_000);
    let plain = build_client(url, Some("d"), Some("u"), Some("p"));
    assert!(makes_a_request(&plain, &[]));
    assert!(!makes_a_request(&build_client("", None, None, None), &[]));
    let database = build_client(url, Some(&long), None, None);
    assert!(!makes_a_request(&database, &[]));
    let user = build_client(url, None, Some("a\nb"), None);
    assert!(!makes_a_request(&user, &[]));
    let password = build_client(url, None, None, Some("a\nb"));
    assert!(!makes_a_request(&password, &[]));
}

#[test]
fn a_later_setting_takes_the_place_of_an_earlier_one() {
    let client = build_client("http://127.0.0.1:1", None, None, None);
    let long = ("max_threads".to_owned(), "x".repeat(70_000));
    let short = ("max_threads".to_owned(), "4".to_owned());
    assert!(makes_a_request(&client, &[short.clone()]));
    assert!(!makes_a_request(&client, &[long.clone()]));
    assert!(!makes_a_request(&client, &[short.clone(), long.clone()]));
    assert!(makes_a_request(&client, &[long, short]));
}
