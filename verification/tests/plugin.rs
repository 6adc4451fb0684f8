use clickhouse_binding::params::CompiledParam;
use clickhouse_binding::plugin::{BackendError, ClickHouseBackendPlugin, PluginClass};
use clickhouse_binding::profile::{reject_bare_cred, ReadOnlyVerdicts};
use clickhouse_binding::surface::Surface;
use clickhouse_binding::types::{
    ClickHouseAuth, ClickHouseBackendSpec, ClickHouseOperation, ClickHouseQueryConfig,
    ClickHouseTls, CompletionConfig, ListQueryConfig, ListQueryMode,
};
use serde_json::Value;

fn doc(text: &str) -> Value {
    serde_json::from_str(text).expect("document")
}

fn bare_spec() -> ClickHouseBackendSpec {
    ClickHouseBackendSpec {
        operation: ClickHouseOperation::Query,
        url: "http://localhost:8123".to_owned(),
        database: None,
        catalog_database: None,
        catalog_database_arg: None,
        catalog_table: None,
        catalog_table_arg: None,
        auth: ClickHouseAuth::default(),
        tls: ClickHouseTls::default(),
        statement: String::new(),
        params: Vec::new(),
        query: ClickHouseQueryConfig::default(),
        surface: Surface::Tool,
        uri: None,
        list_query: None,
        read_query: None,
        variable_completions: Vec::new(),
    }
}

fn minimal_spec() -> ClickHouseBackendSpec {
    let mut spec = bare_spec();
    spec.statement = "SELECT 1 AS one WHERE 1 = ?".to_owned();
    spec.params = vec!["arguments.id".to_owned()];
    spec
}

fn refused() -> Result<(), String> {
    Err("statement must be read-only".to_owned())
}

fn passed() -> ReadOnlyVerdicts {
    ReadOnlyVerdicts {
        statement: Ok(()),
        read_query: Ok(()),
        list_query: Ok(()),
        completions: Vec::new(),
    }
}

fn compiled(spec: &ClickHouseBackendSpec) -> Vec<CompiledParam> {
    spec.params
        .iter()
        .map(|source| CompiledParam {
            source: source.clone(),
        })
        .collect()
}

fn register(
    plugin: &mut ClickHouseBackendPlugin,
    name: &str,
    spec: ClickHouseBackendSpec,
    verdicts: &ReadOnlyVerdicts,
) -> Result<(), BackendError> {
    let params = compiled(&spec);
    plugin.register_profile(name, spec, verdicts, Ok(params))
}

fn refusal(spec: ClickHouseBackendSpec, verdicts: &ReadOnlyVerdicts) -> String {
    let mut plugin = ClickHouseBackendPlugin::new();
    let err = register(&mut plugin, "x", spec, verdicts).expect_err("refused");
    assert!(plugin.profile("x").is_none());
    match err {
        BackendError::InvalidSpec { message } => message,
        other => panic!("expected InvalidSpec, got {other:?}"),
    }
}

#[test]
fn kind_is_clickhouse() {
    assert_eq!(ClickHouseBackendPlugin::new().kind(), "clickhouse");
}

#[test]
fn manifest_id() {
    assert_eq!(
        ClickHouseBackendPlugin::new().manifest().id,
        "dev.mcpg.backend.clickhouse"
    );
}

#[test]
fn manifest_tells_name_and_class() {
    let plugin = ClickHouseBackendPlugin::default();
    assert_eq!(plugin.manifest().name, "ClickHouse Binding");
    assert_eq!(plugin.manifest().plugin_class, PluginClass::Backend);
    assert_eq!(
        plugin.audit_metadata("any"),
        doc("{\"clickhouse.transport\":\"plugin\"}")
    );
}

#[test]
fn output_schema_is_object() {
    let plugin = ClickHouseBackendPlugin::new();
    let schema = plugin.output_schema("an").unwrap();
    assert_eq!(schema["type"], doc("\"object\""));
}

#[test]
fn input_schema_lists_referenced_params() {
    let mut plugin = ClickHouseBackendPlugin::new();
    register(&mut plugin, "an", minimal_spec(), &passed()).expect("register");
    let schema = plugin.input_schema("an").unwrap();
    assert_eq!(schema["type"], doc("\"object\""));
    assert_eq!(schema["additionalProperties"], doc("true"));
    assert!(schema["properties"]["id"].is_object());
}

#[test]
fn register_builds_client_without_connecting() {
    let mut plugin = ClickHouseBackendPlugin::new();
    register(&mut plugin, "an", minimal_spec(), &passed()).expect("register stays offline");
    let p = plugin.profile("an").unwrap();
    assert_eq!(p.database, "default");
    assert!(p.read_only);
    assert_eq!(p.compiled_params.len(), 1);
}

#[test]
fn register_carries_explicit_database_label() {
    let mut plugin = ClickHouseBackendPlugin::new();
    let mut spec = minimal_spec();
    spec.database = Some("analytics".to_owned());
    register(&mut plugin, "an", spec, &passed()).expect("register");
    assert_eq!(plugin.profile("an").unwrap().database, "analytics");
}

#[test]
fn register_rejects_verify_peer_false() {
    let mut spec = minimal_spec();
    spec.tls = ClickHouseTls { verify_peer: false };
    let message = refusal(spec, &passed());
    assert!(message.contains("verify_peer=false"), "{message}");
    assert!(message.contains("trusted CA"), "{message}");
}

#[test]
fn register_rejects_non_read_only_when_guarded() {
    let mut plugin = ClickHouseBackendPlugin::new();
    let mut spec = minimal_spec();
    spec.statement = "INSERT INTO t VALUES (1)".to_owned();
    spec.params = Vec::new();
    let verdicts = ReadOnlyVerdicts {
        statement: refused(),
        ..passed()
    };
    let err =
        register(&mut plugin, "x", spec, &verdicts).expect_err("non-select under read_only");
    assert!(matches!(err, BackendError::InvalidSpec { .. }));
}

#[test]
fn register_allows_write_when_read_only_off() {
    let mut plugin = ClickHouseBackendPlugin::new();
    let mut spec = minimal_spec();
    spec.statement = "INSERT INTO t VALUES (?)".to_owned();
    spec.query.read_only = false;
    let verdicts = ReadOnlyVerdicts {
        statement: refused(),
        ..passed()
    };
    register(&mut plugin, "w", spec, &verdicts).expect("write under read_only=false");
    assert!(!plugin.profile("w").unwrap().read_only);
    assert!(!plugin
        .profile("w")
        .unwrap()
        .prepare("INSERT INTO t VALUES (1)", &[])
        .fetches);
}

#[test]
fn register_rejects_bare_cred() {
    let mut plugin = ClickHouseBackendPlugin::new();
    let mut spec = minimal_spec();
    spec.statement = "SELECT 1 WHERE secret = 'cred://aws/x#id'".to_owned();
    spec.params = Vec::new();
    let err = register(&mut plugin, "x", spec, &passed()).expect_err("bare cred");
    assert!(matches!(err, BackendError::InvalidSpec { .. }));
}

#[test]
fn register_rejects_empty_statement() {
    let mut plugin = ClickHouseBackendPlugin::new();
    let mut spec = minimal_spec();
    spec.statement = "   ".to_owned();
    let err = register(&mut plugin, "x", spec, &passed()).expect_err("empty statement");
    assert!(matches!(err, BackendError::InvalidSpec { .. }));
}

#[test]
fn register_rejects_uri_on_tool_surface() {
    let mut plugin = ClickHouseBackendPlugin::new();
    let mut spec = minimal_spec();
    spec.uri = Some("clickhouse://x".to_owned());
    let err = register(&mut plugin, "x", spec, &passed()).expect_err("uri on tool surface");
    assert!(matches!(err, BackendError::InvalidSpec { .. }));
}

#[test]
fn register_rejects_keyset_list_query_without_cursor() {
    let mut plugin = ClickHouseBackendPlugin::new();
    let mut spec = minimal_spec();
    spec.surface = Surface::Resource;
    spec.list_query = Some(ListQueryConfig {
        sql: "SELECT id AS uri FROM t".to_owned(),
        mode: ListQueryMode::Keyset,
        cursor_column: None,
        page_size: 100,
    });
    let err = register(&mut plugin, "x", spec, &passed()).expect_err("missing cursor_column");
    assert!(matches!(err, BackendError::InvalidSpec { .. }));
}

#[test]
fn execute_unknown_profile_is_profile_not_found() {
    let plugin = ClickHouseBackendPlugin::new();
    let err = plugin.find_profile("missing").err().expect("missing");
    assert!(matches!(err, BackendError::ProfileNotFound { .. }));
    let err = plugin.open_call("missing", &[], &[]).err().expect("missing");
    assert!(matches!(err, BackendError::ProfileNotFound { .. }));
    match plugin.open_call("missing", b"{not json", &[]) {
        Err(BackendError::ProfileNotFound { backend_name }) => assert_eq!(backend_name, "missing"),
        _ => panic!("expected ProfileNotFound"),
    }
}

#[test]
fn register_list_tables_without_statement() {
    let mut plugin = ClickHouseBackendPlugin::new();
    let mut spec = bare_spec();
    spec.operation = ClickHouseOperation::ListTables;
    spec.catalog_database = Some("analytics".to_owned());
    register(&mut plugin, "lt", spec, &passed()).expect("list_tables registers without a statement");
    let p = plugin.profile("lt").unwrap();
    assert_eq!(p.operation, ClickHouseOperation::ListTables);
    assert_eq!(p.catalog_filters.database.as_deref(), Some("analytics"));
}

#[test]
fn register_list_columns_requires_table() {
    let mut spec = bare_spec();
    spec.operation = ClickHouseOperation::ListColumns;
    let message = refusal(spec, &passed());
    assert!(message.contains("catalog_table"), "{message}");
}

#[test]
fn register_list_columns_with_table_arg() {
    let mut plugin = ClickHouseBackendPlugin::new();
    let mut spec = bare_spec();
    spec.operation = ClickHouseOperation::ListColumns;
    spec.catalog_table_arg = Some("tbl".to_owned());
    register(&mut plugin, "lc", spec, &passed())
        .expect("table_arg satisfies the list_columns requirement");
    assert_eq!(
        plugin
            .profile("lc")
            .unwrap()
            .catalog_filters
            .table_arg
            .as_deref(),
        Some("tbl")
    );
}

#[test]
fn register_stores_query_settings() {
    let mut plugin = ClickHouseBackendPlugin::new();
    let mut spec = minimal_spec();
    spec.query.settings = vec![
        ("max_threads".to_owned(), "4".to_owned()),
        ("readonly".to_owned(), "2".to_owned()),
    ];
    register(&mut plugin, "s", spec, &passed()).expect("register");
    let s = &plugin.profile("s").unwrap().settings;
    assert!(s.iter().any(|(k, v)| k == "max_threads" && v == "4"));
    assert!(s.iter().any(|(k, v)| k == "readonly" && v == "2"));
}

#[test]
fn output_schema_for_list_tables_types_rows() {
    let mut plugin = ClickHouseBackendPlugin::new();
    let mut spec = bare_spec();
    spec.operation = ClickHouseOperation::ListTables;
    register(&mut plugin, "lt", spec, &passed()).expect("register");
    let schema = plugin.output_schema("lt").unwrap();
    let item = &schema["properties"]["response"]["properties"]["rows"]["items"];
    assert_eq!(item["type"], doc("\"object\""));
    assert!(item["properties"]["engine"].is_object());
}

#[test]
fn input_schema_for_catalog_lists_filter_args() {
    let mut plugin = ClickHouseBackendPlugin::new();
    let mut spec = bare_spec();
    spec.operation = ClickHouseOperation::ListColumns;
    spec.catalog_table_arg = Some("tbl".to_owned());
    spec.catalog_database_arg = Some("db".to_owned());
    register(&mut plugin, "lc", spec, &passed()).expect("register");
    let schema = plugin.input_schema("lc").unwrap();
    assert!(schema["properties"]["tbl"].is_object());
    assert!(schema["properties"]["db"].is_object());
}

#[test]
fn register_resource_template_read_query() {
    let mut plugin = ClickHouseBackendPlugin::new();
    let mut spec = bare_spec();
    spec.surface = Surface::Resource;
    spec.read_query = Some("SELECT * FROM orders WHERE id = ?".to_owned());
    spec.params = vec!["arguments.id".to_owned()];
    register(&mut plugin, "rt", spec, &passed()).expect("read_query registers without a statement");
    let p = plugin.profile("rt").unwrap();
    assert_eq!(
        p.read_query.as_deref(),
        Some("SELECT * FROM orders WHERE id = ?")
    );
    assert!(p.statement.is_empty());
    assert_eq!(p.surface, Surface::Resource);
    assert_eq!(p.compiled_params.len(), 1);
}

#[test]
fn register_rejects_read_query_on_tool_surface() {
    let mut spec = minimal_spec();
    spec.read_query = Some("SELECT * FROM t WHERE id = ?".to_owned());
    let message = refusal(spec, &passed());
    assert!(message.contains("read_query"), "{message}");
    assert!(message.contains("surface: resource"), "{message}");
}

#[test]
fn register_rejects_non_read_only_read_query() {
    let mut plugin = ClickHouseBackendPlugin::new();
    let mut spec = bare_spec();
    spec.surface = Surface::Resource;
    spec.read_query = Some("DELETE FROM orders WHERE id = ?".to_owned());
    spec.params = vec!["arguments.id".to_owned()];
    let verdicts = ReadOnlyVerdicts {
        read_query: refused(),
        ..passed()
    };
    let err = register(&mut plugin, "x", spec, &verdicts).expect_err("non-read-only read_query");
    assert!(matches!(err, BackendError::InvalidSpec { .. }));
}

#[test]
fn register_rejects_bare_cred_read_query() {
    let mut plugin = ClickHouseBackendPlugin::new();
    let mut spec = bare_spec();
    spec.surface = Surface::Resource;
    spec.read_query = Some("SELECT * FROM t WHERE k = 'cred://aws/x#id'".to_owned());
    let err = register(&mut plugin, "x", spec, &passed()).expect_err("bare cred in read_query");
    assert!(matches!(err, BackendError::InvalidSpec { .. }));
}

#[test]
fn each_reason_for_refusal_is_told() {
    let mut spec = minimal_spec();
    spec.url = " \n".to_owned();
    assert_eq!(refusal(spec, &passed()), "url must not be empty");

    let mut spec = minimal_spec();
    spec.statement = String::new();
    assert_eq!(
        refusal(spec, &passed()),
        "statement must not be empty (or set `read_query` for a resource_template read binding)"
    );

    let mut spec = bare_spec();
    spec.operation = ClickHouseOperation::ListColumns;
    spec.catalog_table = Some(" ".to_owned());
    assert_eq!(
        refusal(spec, &passed()),
        "operation: list_columns requires a `catalog_table` filter or a `catalog_table_arg` (the table whose columns to list)"
    );

    let mut spec = minimal_spec();
    spec.query.max_execution_time_ms = 0;
    assert_eq!(
        refusal(spec, &passed()),
        "query.max_execution_time_ms must be greater than 0"
    );

    let mut spec = minimal_spec();
    spec.query.max_result_rows = 0;
    assert_eq!(
        refusal(spec, &passed()),
        "query.max_result_rows must be greater than 0"
    );

    let mut spec = minimal_spec();
    spec.tls.verify_peer = false;
    assert_eq!(
        refusal(spec, &passed()),
        "clickhouse tls.verify_peer=false is not supported; configure a trusted CA instead"
    );

    let mut spec = minimal_spec();
    spec.url = "http://cred://x".to_owned();
    assert_eq!(
        refusal(spec, &passed()),
        "url must not contain a bare cred:// URI \u{2014} use ${cred://\u{2026}} (resolved at config load)"
    );

    let mut spec = minimal_spec();
    spec.auth.password = Some("cred://ch-creds/reader".to_owned());
    spec.statement = "SELECT 'cred://'".to_owned();
    assert_eq!(
        refusal(spec, &passed()),
        "auth.password must not contain a bare cred:// URI \u{2014} use ${cred://\u{2026}} (resolved at config load)"
    );

    let verdicts = ReadOnlyVerdicts {
        statement: refused(),
        ..passed()
    };
    assert_eq!(
        refusal(minimal_spec(), &verdicts),
        "statement must be read-only"
    );

    let mut spec = minimal_spec();
    spec.surface = Surface::Prompt;
    spec.uri = Some("u".to_owned());
    assert_eq!(
        refusal(spec, &passed()),
        "`uri` is only valid with `surface: resource` (this binding is `surface: prompt`)"
    );

    let mut spec = minimal_spec();
    spec.surface = Surface::Resource;
    spec.uri = Some(" ".to_owned());
    assert_eq!(refusal(spec, &passed()), "`uri` must not be empty");

    let mut spec = minimal_spec();
    spec.surface = Surface::Resource;
    spec.read_query = Some(" ".to_owned());
    assert_eq!(refusal(spec, &passed()), "`read_query` must not be empty");

    let mut spec = minimal_spec();
    spec.read_query = Some("SELECT 1".to_owned());
    assert_eq!(
        refusal(spec, &passed()),
        "`read_query` is only valid with `surface: resource` (this binding is `surface: tool`)"
    );

    let mut spec = minimal_spec();
    spec.list_query = Some(ListQueryConfig {
        sql: "SELECT 'cred://'".to_owned(),
        mode: ListQueryMode::Offset,
        cursor_column: None,
        page_size: 1,
    });
    assert_eq!(
        refusal(spec.clone(), &passed()),
        "list_query.sql must not contain a bare cred:// URI \u{2014} use ${cred://\u{2026}} (resolved at config load)"
    );
    spec.list_query = Some(ListQueryConfig {
        sql: "DROP TABLE t".to_owned(),
        mode: ListQueryMode::Offset,
        cursor_column: None,
        page_size: 1,
    });
    let verdicts = ReadOnlyVerdicts {
        list_query: Err("list_query writes".to_owned()),
        ..passed()
    };
    assert_eq!(refusal(spec, &verdicts), "list_query writes");
}

#[test]
fn completions_are_held_to_the_rules_in_order() {
    let mut spec = minimal_spec();
    spec.variable_completions = vec![
        (
            "a".to_owned(),
            CompletionConfig {
                sql: "SELECT ?".to_owned(),
                max_results: None,
            },
        ),
        (
            "b".to_owned(),
            CompletionConfig {
                sql: "SELECT ?, 'cred://'".to_owned(),
                max_results: None,
            },
        ),
    ];
    let verdicts = ReadOnlyVerdicts {
        completions: vec![Ok(()), Ok(())],
        ..passed()
    };
    assert_eq!(
        refusal(spec.clone(), &verdicts),
        "variable_completions.b.sql must not contain a bare cred:// URI \u{2014} use ${cred://\u{2026}} (resolved at config load)"
    );
    let verdicts = ReadOnlyVerdicts {
        completions: vec![Err("a writes".to_owned()), Ok(())],
        ..passed()
    };
    assert_eq!(refusal(spec.clone(), &verdicts), "a writes");
    spec.query.read_only = false;
    spec.variable_completions.truncate(1);
    let verdicts = ReadOnlyVerdicts {
        completions: vec![Err("a writes".to_owned())],
        ..passed()
    };
    let mut plugin = ClickHouseBackendPlugin::new();
    register(&mut plugin, "c", spec, &verdicts).expect("register");
}

#[test]
fn bare_secret_references_are_named_by_field() {
    assert_eq!(reject_bare_cred("url", "http://h"), Ok(()));
    assert_eq!(
        reject_bare_cred("url", "x cred:// y").unwrap_err(),
        "url must not contain a bare cred:// URI \u{2014} use ${cred://\u{2026}} (resolved at config load)"
    );
}

#[test]
fn a_refused_expression_refuses_the_binding() {
    let mut plugin = ClickHouseBackendPlugin::new();
    register(&mut plugin, "a", minimal_spec(), &passed()).expect("register");
    let mut spec = minimal_spec();
    spec.database = Some("other".to_owned());
    let err = plugin
        .register_profile("a", spec, &passed(), Err("params[0]: no".to_owned()))
        .expect_err("refused expression");
    match err {
        BackendError::InvalidSpec { message } => assert_eq!(message, "params[0]: no"),
        other => panic!("expected InvalidSpec, got {other:?}"),
    }
    assert_eq!(plugin.profile("a").unwrap().database, "default");
}

#[test]
fn a_catalog_binding_ignores_its_expressions() {
    let mut plugin = ClickHouseBackendPlugin::new();
    let mut spec = bare_spec();
    spec.operation = ClickHouseOperation::ListTables;
    spec.params = vec!["arguments.".to_owned()];
    plugin
        .register_profile("lt", spec.clone(), &passed(), Err("params[0]: no".to_owned()))
        .expect("register");
    assert!(plugin.profile("lt").unwrap().compiled_params.is_empty());
    register(&mut plugin, "lt", spec, &passed()).expect("register");
    assert!(plugin.profile("lt").unwrap().compiled_params.is_empty());
}

#[test]
fn a_resolved_password_is_accepted() {
    let mut plugin = ClickHouseBackendPlugin::new();
    let mut spec = minimal_spec();
    spec.auth.password = Some("s3cr3t".to_owned());
    register(&mut plugin, "p", spec, &passed()).expect("register");
}

#[test]
fn registering_again_replaces_and_leaves_the_others() {
    let mut plugin = ClickHouseBackendPlugin::new();
    register(&mut plugin, "a", minimal_spec(), &passed()).expect("register");
    register(&mut plugin, "b", minimal_spec(), &passed()).expect("register");
    let mut spec = minimal_spec();
    spec.database = Some("other".to_owned());
    register(&mut plugin, "a", spec, &passed()).expect("register");
    assert_eq!(plugin.profile("a").unwrap().database, "other");
    assert_eq!(plugin.profile("b").unwrap().database, "default");
    assert!(plugin.profile("c").is_none());
}

#[test]
fn schemas_of_unknown_names_are_open() {
    let plugin = ClickHouseBackendPlugin::new();
    assert_eq!(
        plugin.input_schema("none"),
        Some(doc(
            "{\"type\":\"object\",\"properties\":{},\"additionalProperties\":true}"
        ))
    );
    let schema = plugin.output_schema("none").unwrap();
    assert_eq!(
        schema["properties"]["response"]["properties"]["rows"]["items"],
        doc("{}")
    );
}

#[test]
fn a_catalog_binding_only_reads() {
    let mut plugin = ClickHouseBackendPlugin::new();
    let mut spec = bare_spec();
    spec.operation = ClickHouseOperation::ListTables;
    spec.query.read_only = false;
    register(&mut plugin, "lt", spec, &passed()).expect("register");
    assert!(plugin.profile("lt").unwrap().prepare("SELECT 1", &[]).fetches);
}
