use clickhouse_binding::call::{
    bind_params, finalize_payload, finish_call, plan_call, read_arguments, refuse_call, respond,
    take_arguments, tool_name,
};
use clickhouse_binding::engine::QueryOutcome;
use clickhouse_binding::params::{json_to_ch_bind, ChBind};
use clickhouse_binding::plugin::{BackendError, ClickHouseBackendPlugin};
use clickhouse_binding::profile::{resolve_one, CatalogFilterConfig, ClickHouseProfile};
use clickhouse_binding::surface::{
    prompt_messages_body, resolve_resource_uri, resource_contents_body, Surface,
};
use clickhouse_binding::types::{
    ClickHouseAuth, ClickHouseBackendSpec, ClickHouseOperation, ClickHouseQueryConfig,
    ClickHouseTls,
};
use clickhouse_binding::profile::ReadOnlyVerdicts;
use serde_json::Value;

fn doc(text: &str) -> Value {
    serde_json::from_str(text).expect("document")
}

fn spec(operation: ClickHouseOperation, surface: Surface) -> ClickHouseBackendSpec {
    ClickHouseBackendSpec {
        operation,
        url: "http://localhost:8123".to_owned(),
        database: Some("db".to_owned()),
        catalog_database: Some("fixed".to_owned()),
        catalog_database_arg: Some("database".to_owned()),
        catalog_table: None,
        catalog_table_arg: Some("table".to_owned()),
        auth: ClickHouseAuth {
            username: Some("reader".to_owned()),
            password: Some("hidden".to_owned()),
        },
        tls: ClickHouseTls::default(),
        statement: "SELECT ?".to_owned(),
        params: Vec::new(),
        query: ClickHouseQueryConfig::default(),
        surface,
        uri: None,
        list_query: None,
        read_query: None,
        variable_completions: Vec::new(),
    }
}

fn profile(operation: ClickHouseOperation, surface: Surface) -> ClickHouseProfile {
    ClickHouseProfile::from_spec(spec(operation, surface), Vec::new())
}

fn outcome() -> QueryOutcome {
    QueryOutcome {
        rows: vec![doc("{\"a\":1}")],
        truncated: true,
        row_count: 3,
    }
}

#[test]
fn resolve_one_arg_overrides_static() {
    let args = doc("{ \"tbl\": \"events\" }");
    assert_eq!(
        resolve_one(Some("fallback"), Some("tbl"), &args).as_deref(),
        Some("events")
    );
    assert_eq!(
        resolve_one(Some("fallback"), Some("missing"), &args).as_deref(),
        Some("fallback")
    );
    assert_eq!(resolve_one(None, None, &args), None);
}

#[test]
fn template_var_binds_as_param_not_interpolated() {
    let injection = "1 OR 1=1; DROP TABLE orders";
    let values = vec![Value::String(injection.to_owned())];
    let bind = json_to_ch_bind(values.into_iter().next().unwrap()).unwrap();
    assert_eq!(bind, ChBind::Str(injection.to_owned()));
}

#[test]
fn resource_template_read_shapes_single_row_contents() {
    let uri = "clickhouse://orders/42";
    let row = doc("{ \"id\": 42, \"total\": 19.99 }");
    let body = resource_contents_body(uri, std::slice::from_ref(&row));
    let contents = body["contents"].as_array().expect("contents");
    assert_eq!(contents.len(), 1);
    assert_eq!(contents[0]["uri"], Value::String(uri.to_owned()));
    assert_eq!(
        contents[0]["mimeType"],
        Value::String("application/json".to_owned())
    );
    let decoded: Vec<Value> = serde_json::from_str(contents[0]["text"].as_str().unwrap()).unwrap();
    assert_eq!(decoded, vec![row]);
}

#[test]
fn execute_param_failure_yields_error_envelope() {
    let mut binding = spec(ClickHouseOperation::Query, Surface::Tool);
    binding.statement = "SELECT ? AS x".to_owned();
    binding.params = vec!["arguments.missing.deeply".to_owned()];
    let mut plugin = ClickHouseBackendPlugin::new();
    let verdicts = ReadOnlyVerdicts {
        statement: Ok(()),
        read_query: Ok(()),
        list_query: Ok(()),
        completions: Vec::new(),
    };
    plugin
        .register_profile("q", binding, &verdicts, Ok(Vec::new()))
        .expect("register");
    let headers = vec![("mcpg-tool-name".to_owned(), "q".to_owned())];
    let call = match plugin.open_call("q", b"{}", &headers) {
        Ok(call) => call,
        Err(_) => panic!("open"),
    };
    let refused = plan_call(
        &call.profile,
        &call.arguments,
        Err("no such key: missing".to_owned()),
    )
    .expect_err("refused");
    let reply = refuse_call(&call.profile, "q", &call.tool_name, &refused, 1);
    let resp = finalize_payload(reply.body).expect("execute");
    let env: Value = serde_json::from_slice(&resp.payload).expect("envelope json");
    assert!(!env["downstreamError"].is_null(), "{env}");
    assert!(env["response"].is_null());
}

#[test]
fn arguments_are_read_from_the_payload() {
    assert_eq!(read_arguments(b"").unwrap(), doc("{}"));
    assert_eq!(
        read_arguments(b" {\"a\": [1]} ").unwrap(),
        doc("{\"a\":[1]}")
    );
    match read_arguments(b"{") {
        Err(BackendError::InvalidSpec { message }) => assert_eq!(
            message,
            "ClickHouse plugin payload is not valid JSON: EOF while parsing an object at line 1 column 1"
        ),
        other => panic!("{other:?}"),
    }
    assert_eq!(take_arguments(Ok(doc("7"))).unwrap(), doc("7"));
    assert_eq!(
        take_arguments(Err("bad".to_owned())).unwrap_err(),
        BackendError::InvalidSpec {
            message: "ClickHouse plugin payload is not valid JSON: bad".to_owned()
        }
    );
}

#[test]
fn a_header_names_the_tool() {
    let headers = vec![
        ("x".to_owned(), "no".to_owned()),
        ("MCPG-Tool-Name".to_owned(), "first".to_owned()),
        ("mcpg-tool-name".to_owned(), "second".to_owned()),
    ];
    assert_eq!(tool_name(&headers, "binding"), "first");
    assert_eq!(tool_name(&headers[..1], "binding"), "binding");
    assert_eq!(tool_name(&[], "binding"), "binding");
}

#[test]
fn filters_are_resolved_for_each_call() {
    let filters = CatalogFilterConfig {
        database: Some("fixed".to_owned()),
        database_arg: Some("d".to_owned()),
        table: None,
        table_arg: Some("t".to_owned()),
    };
    assert_eq!(
        filters.resolve(&doc("{\"d\":\"given\",\"t\":7}")),
        (Some("given".to_owned()), None)
    );
    assert_eq!(
        filters.resolve(&doc("[]")),
        (Some("fixed".to_owned()), None)
    );
    assert_eq!(filters.argument_names(), vec!["d", "t"]);
    let same = CatalogFilterConfig {
        database_arg: Some("n".to_owned()),
        table_arg: Some("n".to_owned()),
        ..CatalogFilterConfig::default()
    };
    assert_eq!(same.argument_names(), vec!["n"]);
}

#[test]
fn only_scalars_are_bound() {
    let values = vec![doc("null"), doc("-3"), doc("true"), doc("\"s\"")];
    assert_eq!(
        bind_params(values).unwrap(),
        vec![
            ChBind::Null,
            ChBind::Int(-3),
            ChBind::Bool(true),
            ChBind::Str("s".to_owned())
        ]
    );
    match json_to_ch_bind(doc("18446744073709551615")).unwrap() {
        ChBind::Float(n) => assert_eq!(n.as_u64(), Some(u64::MAX)),
        other => panic!("{other:?}"),
    }
    match json_to_ch_bind(doc("2.0")).unwrap() {
        ChBind::Float(n) => assert_eq!(n.as_f64(), Some(2.0)),
        other => panic!("{other:?}"),
    }
    assert!(json_to_ch_bind(doc("[]")).is_err());
    assert!(json_to_ch_bind(doc("{}")).is_err());
    assert!(bind_params(vec![doc("1"), doc("[1]")]).is_err());
}

#[test]
fn a_query_binds_its_parameters() {
    let p = profile(ClickHouseOperation::Query, Surface::Tool);
    let plan = plan_call(&p, &doc("{}"), Ok(vec![doc("5")])).unwrap();
    assert_eq!(plan.statement, "SELECT ?");
    assert_eq!(plan.binds, vec![ChBind::Int(5)]);
    assert_eq!(
        p.prepare(&plan.statement, &plan.binds)
            .query
            .sql_display()
            .to_string(),
        "SELECT 5"
    );
    assert_eq!(
        plan_call(&p, &doc("{}"), Err("boom".to_owned())).unwrap_err(),
        "evaluating params: boom"
    );
    let message = plan_call(&p, &doc("{}"), Ok(vec![doc("{}")])).unwrap_err();
    assert!(message.starts_with("binding params: "), "{message}");
}

#[test]
fn a_resource_is_read_by_its_read_query() {
    let mut binding = spec(ClickHouseOperation::Query, Surface::Resource);
    binding.read_query = Some("SELECT * FROM orders WHERE id = ?".to_owned());
    let p = ClickHouseProfile::from_spec(binding, Vec::new());
    let plan = plan_call(&p, &doc("{}"), Ok(vec![doc("1")])).unwrap();
    assert_eq!(plan.statement, "SELECT * FROM orders WHERE id = ?");
    let p = profile(ClickHouseOperation::Query, Surface::Resource);
    let plan = plan_call(&p, &doc("{}"), Ok(vec![doc("1")])).unwrap();
    assert_eq!(plan.statement, "SELECT ?");
}

#[test]
fn catalog_calls_bind_their_filters_and_take_no_parameters() {
    let p = profile(ClickHouseOperation::ListTables, Surface::Tool);
    let plan = plan_call(
        &p,
        &doc("{\"database\":\"x' OR '1'='1\"}"),
        Err("unused".to_owned()),
    )
    .unwrap();
    assert!(plan.statement.contains("WHERE database = ?"));
    assert_eq!(
        plan.binds,
        vec![
            ChBind::Str("x' OR '1'='1".to_owned()),
            ChBind::Int(100_000)
        ]
    );
    assert!(p
        .prepare(&plan.statement, &plan.binds)
        .query
        .sql_display()
        .to_string()
        .contains("WHERE database = 'x\\' OR \\'1\\'=\\'1' ORDER BY"));

    let p = profile(ClickHouseOperation::ListColumns, Surface::Tool);
    let plan = plan_call(&p, &doc("{\"table\":\"events\"}"), Ok(Vec::new())).unwrap();
    assert!(plan.statement.contains("WHERE database = ? AND table = ?"));
    assert_eq!(
        plan.binds,
        vec![
            ChBind::Str("fixed".to_owned()),
            ChBind::Str("events".to_owned()),
            ChBind::Int(100_000)
        ]
    );
    let plan = plan_call(&p, &doc("{\"table\":\" \"}"), Ok(Vec::new())).unwrap();
    assert!(plan.statement.contains("WHERE database = ? ORDER BY"));
    assert_eq!(
        plan.binds,
        vec![ChBind::Str("fixed".to_owned()), ChBind::Int(100_000)]
    );
}

#[test]
fn a_blank_argument_leaves_the_fixed_filter_in_force() {
    let mut binding = spec(ClickHouseOperation::ListTables, Surface::Tool);
    binding.catalog_database = Some("analytics".to_owned());
    binding.catalog_database_arg = Some("db".to_owned());
    let p = ClickHouseProfile::from_spec(binding, Vec::new());
    for arguments in ["{\"db\":\"\"}", "{\"db\":\" \\t\"}", "{\"db\":null}", "{}"] {
        let plan = plan_call(&p, &doc(arguments), Ok(Vec::new())).unwrap();
        assert!(plan.statement.contains("WHERE database = ?"), "{arguments}");
        assert_eq!(
            plan.binds,
            vec![ChBind::Str("analytics".to_owned()), ChBind::Int(100_000)]
        );
    }
    let plan = plan_call(&p, &doc("{\"db\":\"other\"}"), Ok(Vec::new())).unwrap();
    assert_eq!(plan.binds[0], ChBind::Str("other".to_owned()));

    let mut binding = spec(ClickHouseOperation::ListColumns, Surface::Tool);
    binding.catalog_table = Some("events".to_owned());
    let p = ClickHouseProfile::from_spec(binding, Vec::new());
    let plan = plan_call(&p, &doc("{\"table\":\"\"}"), Ok(Vec::new())).unwrap();
    assert_eq!(plan.binds[1], ChBind::Str("events".to_owned()));
    assert_eq!(resolve_one(Some("f"), Some("a"), &doc("{\"a\":\" \"}")).as_deref(), Some("f"));
    assert_eq!(resolve_one(None, Some("a"), &doc("{\"a\":\" \"}")), None);
}

#[test]
fn each_surface_has_its_answer() {
    let p = profile(ClickHouseOperation::Query, Surface::Tool);
    let reply = finish_call(&p, "b", "t", &doc("{}"), Ok(outcome()), 5);
    assert_eq!(reply.outcome_label, "ok");
    assert_eq!(reply.audit_reason, None);
    assert_eq!(
        reply.body,
        doc("{\"toolName\":\"t\",\"profile\":\"b\",\"request\":{\"database\":\"db\"},\"response\":{\"rows\":[{\"a\":1}],\"count\":3,\"truncated\":true,\"durationMs\":5},\"downstreamError\":null,\"downstreamErrors\":[],\"error\":null}")
    );

    let p = profile(ClickHouseOperation::Query, Surface::Resource);
    let reply = finish_call(&p, "b", "t", &doc("{\"uri\":\"u\"}"), Ok(outcome()), 5);
    assert_eq!(reply.outcome_label, "ok");
    assert_eq!(
        reply.body,
        doc("{\"contents\":[{\"uri\":\"u\",\"mimeType\":\"application/json\",\"text\":\"[{\\\"a\\\":1}]\"}]}")
    );

    let p = profile(ClickHouseOperation::Query, Surface::Prompt);
    let reply = finish_call(&p, "b", "t", &doc("{}"), Ok(outcome()), 5);
    assert_eq!(reply.outcome_label, "ok");
    assert_eq!(reply.body, prompt_messages_body(&outcome().rows));
    assert_eq!(
        reply.body,
        doc("{\"messages\":[{\"role\":\"user\",\"content\":{\"type\":\"text\",\"text\":\"[{\\\"a\\\":1}]\"}}]}")
    );
}

#[test]
fn a_resource_without_uri_is_an_error() {
    let p = profile(ClickHouseOperation::Query, Surface::Resource);
    let reply = finish_call(&p, "b", "t", &doc("{\"uri\":1}"), Ok(outcome()), 5);
    let message = "resource surface requires a `uri` (set a static `uri` on the binding or invoke via a resources/read request)";
    assert_eq!(reply.outcome_label, "clickhouse_error");
    assert_eq!(reply.audit_reason.as_deref(), Some(message));
    assert!(reply.body["response"].is_null());
    assert_eq!(reply.body["error"], Value::String(message.to_owned()));
    assert_eq!(
        resolve_resource_uri(Some("fixed"), &doc("{\"uri\":\"asked\"}")),
        Some("fixed")
    );
    assert_eq!(
        resolve_resource_uri(None, &doc("{\"uri\":\"asked\"}")),
        Some("asked")
    );
}

#[test]
fn a_failed_call_is_labelled() {
    for (message, label) in [
        ("ClickHouse call TIMED OUT", "timeout"),
        ("syntax error, timeout", "timeout"),
        ("connection refused", "transport_error"),
        ("readonly connection", "clickhouse_error"),
        ("whatever", "clickhouse_error"),
    ] {
        for surface in [Surface::Tool, Surface::Resource, Surface::Prompt] {
            let p = profile(ClickHouseOperation::Query, surface);
            let reply = finish_call(&p, "b", "t", &doc("{}"), Err(message.to_owned()), 5);
            assert_eq!(reply.outcome_label, label);
            assert_eq!(reply.audit_reason.as_deref(), Some(message));
            assert!(reply.body["response"].is_null());
            assert_eq!(
                reply.body["downstreamError"]["message"],
                Value::String(message.to_owned())
            );
            assert!(!reply.body.to_string().contains("hidden"));
        }
    }
}

#[test]
fn a_refused_call_is_labelled() {
    let p = profile(ClickHouseOperation::Query, Surface::Tool);
    let reply = refuse_call(&p, "b", "t", "evaluating params: boom", 5);
    assert_eq!(reply.outcome_label, "invalid_spec");
    assert_eq!(reply.audit_reason.as_deref(), Some("evaluating params: boom"));
    assert_eq!(
        reply.body["downstreamErrors"][0]["kind"],
        doc("\"clickhouse_error\"")
    );
}

#[test]
fn a_body_is_written_out() {
    let response = finalize_payload(doc("{ \"b\": \"\u{e9}\", \"a\": [1, null] }")).unwrap();
    assert_eq!(response.payload, "{\"b\":\"\u{e9}\",\"a\":[1,null]}".as_bytes());
    assert!(!response.truncated);
    assert_eq!(
        respond(Err("bad".to_owned())).unwrap_err(),
        BackendError::Transport {
            message: "ClickHouse plugin envelope serialization failed: bad".to_owned()
        }
    );
}
