use clickhouse_binding::engine::list_tables_columns;
use clickhouse_binding::envelope::{
    build_result_envelope, catalog_envelope_schema, classify_error, clickhouse_downstream_error,
    result_envelope_schema, retryable,
};
use serde_json::Value;

fn doc(text: &str) -> Value {
    serde_json::from_str(text).expect("document")
}

#[test]
fn timeout_is_retryable_transport_error() {
    let e = classify_error("ClickHouse query failed: connection timed out");
    assert_eq!(e["kind"], doc("\"transport_error\""));
    assert_eq!(e["retryable"], doc("true"));
}

#[test]
fn network_failure_is_retryable() {
    let e = classify_error("Network error: connection refused");
    assert_eq!(e["kind"], doc("\"transport_error\""));
    assert_eq!(e["retryable"], doc("true"));
}

#[test]
fn syntax_error_is_not_retryable() {
    let e = classify_error("Code: 62. DB::Exception: Syntax error: failed at position 1");
    assert_eq!(e["kind"], doc("\"clickhouse_error\""));
    assert_eq!(e["retryable"], doc("false"));
}

#[test]
fn readonly_denial_is_not_retryable() {
    let e = classify_error("Cannot execute query in readonly mode");
    assert_eq!(e["kind"], doc("\"clickhouse_error\""));
    assert_eq!(e["retryable"], doc("false"));
}

#[test]
fn query_envelope_has_rows_and_count() {
    let rows = vec![doc("{ \"id\": 1 }")];
    let env = build_result_envelope(
        "u.get",
        "u.get",
        "default",
        Some(&rows),
        Some(1),
        false,
        7,
        None,
        None,
    );
    assert_eq!(env["response"]["count"], doc("1"));
    assert_eq!(env["response"]["rows"][0]["id"], doc("1"));
    assert_eq!(env["response"]["truncated"], doc("false"));
    assert_eq!(env["request"]["database"], doc("\"default\""));
    assert!(env["downstreamError"].is_null());
}

#[test]
fn truncated_flag_is_carried() {
    let rows = vec![doc("{ \"id\": 1 }")];
    let env = build_result_envelope(
        "u.get",
        "u.get",
        "default",
        Some(&rows),
        Some(1),
        true,
        3,
        None,
        None,
    );
    assert_eq!(env["response"]["truncated"], doc("true"));
}

#[test]
fn error_envelope_nulls_response() {
    let d = classify_error("Code: 60. DB::Exception: Unknown table default.bogus");
    let env = build_result_envelope(
        "u.get",
        "u.get",
        "default",
        None,
        None,
        false,
        2,
        Some(&d),
        Some("table missing"),
    );
    assert!(env["response"].is_null());
    assert_eq!(env["downstreamError"]["kind"], doc("\"clickhouse_error\""));
}

#[test]
fn catalog_envelope_schema_types_known_columns() {
    let schema = catalog_envelope_schema(&list_tables_columns());
    let item = &schema["properties"]["response"]["properties"]["rows"]["items"];
    assert_eq!(item["type"], doc("\"object\""));
    assert!(item["properties"]["database"].is_object());
    assert!(item["properties"]["name"].is_object());
    assert!(item["properties"]["engine"].is_object());
    assert_eq!(item["additionalProperties"], doc("true"));
}

#[test]
fn output_schema_matches_envelope_shape() {
    let schema = result_envelope_schema();
    assert_eq!(schema["type"], doc("\"object\""));
    let rows = vec![doc("{ \"id\": 1 }")];
    let env = build_result_envelope(
        "u.get",
        "u.get",
        "default",
        Some(&rows),
        Some(1),
        false,
        7,
        None,
        None,
    );
    let props = schema["properties"].as_object().expect("properties object");
    for key in env.as_object().expect("envelope object").keys() {
        assert!(props.contains_key(key), "schema missing key `{key}`");
    }
    assert_eq!(
        schema["properties"]["response"]["properties"]["rows"]["items"],
        doc("{}")
    );
}

#[test]
fn error_object_is_exact() {
    assert_eq!(
        clickhouse_downstream_error("transport_error", "down", true),
        doc("{\"kind\":\"transport_error\",\"code\":\"mcpg.downstream_clickhouse.transport_error\",\"message\":\"down\",\"retryable\":true,\"retryClass\":\"with_backoff\",\"suggestedAction\":\"check_server_and_retry\"}")
    );
    assert_eq!(
        classify_error("unforeseen"),
        doc("{\"kind\":\"clickhouse_error\",\"code\":\"mcpg.downstream_clickhouse.clickhouse_error\",\"message\":\"unforeseen\",\"retryable\":false,\"retryClass\":\"do_not_retry\",\"suggestedAction\":\"inspect_sql_error\"}")
    );
}

#[test]
fn refusal_outweighs_trouble_in_a_message() {
    for message in [
        "SYNTAX ERROR while the connection timed out",
        "syntax_error 503",
        "unknown identifier, network",
        "Unknown column connect",
        "unknown table 502",
        "unknown database: timeout",
        "Type mismatch on socket",
        "cannot parse: temporarily",
        "illegal type, memory limit",
        "Not enough privileges: too many simultaneous queries",
        "ACCESS_DENIED service unavailable",
        "access denied 503",
        "readonly connection",
        "read-only connection",
        "CANNOT_MODIFY timeout",
    ] {
        assert!(!retryable(message), "{message}");
    }
    for message in [
        "it timed out",
        "Timeout",
        "connection reset",
        "network is unreachable",
        "could not connect",
        "Too many simultaneous queries",
        "MEMORY LIMIT exceeded",
        "socket closed",
        "temporarily off",
        "service unavailable",
        "status 503",
        "status 502",
    ] {
        assert!(retryable(message), "{message}");
    }
    assert!(!retryable("something else"));
}

#[test]
fn envelopes_are_exact() {
    let rows = vec![doc("{\"a\":1}"), doc("{\"a\":2}")];
    assert_eq!(
        build_result_envelope("t", "b", "d", Some(&rows), None, false, 12, None, None),
        doc("{\"toolName\":\"t\",\"profile\":\"b\",\"request\":{\"database\":\"d\"},\"response\":{\"rows\":[{\"a\":1},{\"a\":2}],\"count\":2,\"truncated\":false,\"durationMs\":12},\"downstreamError\":null,\"downstreamErrors\":[],\"error\":null}")
    );
    assert_eq!(
        build_result_envelope("t", "b", "d", None, None, true, 0, None, None)["response"],
        doc("{\"rows\":null,\"count\":null,\"truncated\":true,\"durationMs\":0}")
    );
    let down = doc("{\"kind\":\"k\"}");
    assert_eq!(
        build_result_envelope(
            "t",
            "b",
            "d",
            Some(&rows),
            Some(9),
            true,
            12,
            Some(&down),
            Some("m")
        ),
        doc("{\"toolName\":\"t\",\"profile\":\"b\",\"request\":{\"database\":\"d\"},\"response\":null,\"downstreamError\":{\"kind\":\"k\"},\"downstreamErrors\":[{\"kind\":\"k\"}],\"error\":\"m\"}")
    );
}

#[test]
fn members_keep_the_order_in_which_they_are_put() {
    let env = build_result_envelope("t", "b", "d", None, None, false, 1, None, None);
    assert_eq!(
        env.to_string(),
        "{\"toolName\":\"t\",\"profile\":\"b\",\"request\":{\"database\":\"d\"},\"response\":{\"rows\":null,\"count\":null,\"truncated\":false,\"durationMs\":1},\"downstreamError\":null,\"downstreamErrors\":[],\"error\":null}"
    );
    let schema = catalog_envelope_schema(&["b", "a", "b"]);
    let items = &schema["properties"]["response"]["properties"]["rows"]["items"];
    assert_eq!(items["properties"].to_string(), "{\"b\":{},\"a\":{}}");
}

#[test]
fn schemas_are_exact() {
    let expected = "{\"$schema\":\"https://json-schema.org/draft/2020-12/schema\",\"type\":\"object\",\"properties\":{\"toolName\":{\"type\":\"string\"},\"profile\":{\"type\":\"string\"},\"request\":{\"type\":\"object\",\"properties\":{\"database\":{\"type\":\"string\"}},\"additionalProperties\":true},\"response\":{\"type\":[\"object\",\"null\"],\"properties\":{\"rows\":{\"type\":[\"array\",\"null\"],\"items\":ITEMS},\"count\":{\"type\":[\"integer\",\"null\"]},\"truncated\":{\"type\":\"boolean\"},\"durationMs\":{\"type\":\"integer\"}},\"additionalProperties\":true},\"downstreamError\":{\"type\":[\"object\",\"null\"]},\"downstreamErrors\":{\"type\":\"array\",\"items\":{}},\"error\":{\"type\":[\"string\",\"null\"]}},\"additionalProperties\":true}";
    assert_eq!(
        result_envelope_schema(),
        doc(&expected.replace("ITEMS", "{}"))
    );
    assert_eq!(
        catalog_envelope_schema(&["a", "b"]),
        doc(&expected.replace(
            "ITEMS",
            "{\"type\":\"object\",\"properties\":{\"a\":{},\"b\":{}},\"additionalProperties\":true}"
        ))
    );
}
