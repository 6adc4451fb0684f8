use clickhouse_binding::listing::{
    completion_candidates, finish_completion, finish_listing, first_column, plan_completion,
    plan_listing, rows_to_completion_values, rows_to_resource_page, ResourcePage,
};
use clickhouse_binding::engine::QueryOutcome;
use clickhouse_binding::params::ChBind;
use clickhouse_binding::plugin::BackendError;
use clickhouse_binding::profile::ClickHouseProfile;
use clickhouse_binding::surface::Surface;
use clickhouse_binding::types::{
    ClickHouseAuth, ClickHouseBackendSpec, ClickHouseOperation, ClickHouseQueryConfig,
    ClickHouseTls, CompletionConfig, ListQueryConfig, ListQueryMode,
};
use serde_json::Value;

fn doc(text: &str) -> Value {
    serde_json::from_str(text).expect("document")
}

fn profile(
    list_query: Option<ListQueryConfig>,
    variable_completions: Vec<(String, CompletionConfig)>,
) -> ClickHouseProfile {
    let spec = ClickHouseBackendSpec {
        operation: ClickHouseOperation::Query,
        url: "http://localhost:8123".to_owned(),
        database: None,
        catalog_database: None,
        catalog_database_arg: None,
        catalog_table: None,
        catalog_table_arg: None,
        auth: ClickHouseAuth::default(),
        tls: ClickHouseTls::default(),
        statement: "SELECT 1 AS one WHERE 1 = ?".to_owned(),
        params: vec!["arguments.id".to_owned()],
        query: ClickHouseQueryConfig::default(),
        surface: Surface::Resource,
        uri: None,
        list_query,
        read_query: None,
        variable_completions,
    };
    ClickHouseProfile::from_spec(spec, Vec::new())
}

fn listing(mode: ListQueryMode, page_size: u64) -> ListQueryConfig {
    ListQueryConfig {
        sql: "SELECT id AS uri FROM t".to_owned(),
        mode,
        cursor_column: Some(" id ".to_owned()),
        page_size,
    }
}

#[test]
fn list_resources_empty_when_unconfigured() {
    assert_eq!(plan_listing(&profile(None, Vec::new()), None), Ok(None));
    let page = ResourcePage::empty();
    assert!(page.resources.is_empty());
    assert!(page.next_cursor.is_none());
}

#[test]
fn complete_template_variable_empty_when_unconfigured() {
    assert!(plan_completion(&profile(None, Vec::new()), "v", "x").is_none());
    let got = completion_candidates(&[], 100);
    assert!(got.is_empty());
}

#[test]
fn a_listing_by_key_binds_the_cursor_first() {
    let p = profile(Some(listing(ListQueryMode::Keyset, 50)), Vec::new());
    let first = plan_listing(&p, None).unwrap().unwrap();
    assert_eq!(first.run.statement, "SELECT id AS uri FROM t");
    assert_eq!(first.run.binds, vec![ChBind::Null, ChBind::Int(50)]);
    assert_eq!(first.max_rows, 50);
    assert_eq!(first.prior_offset, 0);
    let next = plan_listing(&p, Some("not a number")).unwrap().unwrap();
    assert_eq!(
        next.run.binds,
        vec![ChBind::Str("not a number".to_owned()), ChBind::Int(50)]
    );
    assert_eq!(next.prior_offset, 0);
}

#[test]
fn a_listing_by_offset_binds_the_page_size_first() {
    let p = profile(Some(listing(ListQueryMode::Offset, 50)), Vec::new());
    let first = plan_listing(&p, None).unwrap().unwrap();
    assert_eq!(first.run.binds, vec![ChBind::Int(50), ChBind::Int(0)]);
    let next = plan_listing(&p, Some("+0100")).unwrap().unwrap();
    assert_eq!(next.run.binds, vec![ChBind::Int(50), ChBind::Int(100)]);
    assert_eq!(next.prior_offset, 100);
    let last = plan_listing(&p, Some("18446744073709551615"))
        .unwrap()
        .unwrap();
    assert_eq!(last.prior_offset, u64::MAX);
    for cursor in ["", "+", "-1", " 1", "1.0", "18446744073709551616", "x"] {
        assert!(cursor.parse::<u64>().is_err());
        assert_eq!(
            plan_listing(&p, Some(cursor)),
            Err(BackendError::InvalidSpec {
                message: format!("offset-mode cursor '{cursor}' is not a non-negative integer")
            })
        );
    }
}

#[test]
fn rows_become_resources() {
    let rows = vec![
        doc("{\"uri\":\"u1\",\"name\":\"n\",\"description\":\"d\",\"mime_type\":\"m\",\"id\":1}"),
        doc("{\"name\":\"without\",\"id\":2}"),
        doc("{\"uri\":\"u3\",\"name\":7,\"id\":3}"),
    ];
    let page = rows_to_resource_page(&rows, &listing(ListQueryMode::Keyset, 3), 0);
    assert_eq!(page.resources.len(), 2);
    assert_eq!(page.resources[0].uri, "u1");
    assert_eq!(page.resources[0].name.as_deref(), Some("n"));
    assert_eq!(page.resources[0].description.as_deref(), Some("d"));
    assert_eq!(page.resources[0].mime_type.as_deref(), Some("m"));
    assert_eq!(page.resources[1].uri, "u3");
    assert_eq!(page.resources[1].name, None);
    assert_eq!(page.next_cursor.as_deref(), Some("3"));
    let last = rows_to_resource_page(&rows, &listing(ListQueryMode::Keyset, 4), 0);
    assert_eq!(last.next_cursor, None);
}

#[test]
fn pages_by_offset_are_contiguous() {
    let rows = vec![doc("{\"uri\":\"a\"}"), doc("{\"uri\":\"b\"}")];
    let cfg = listing(ListQueryMode::Offset, 2);
    let page = rows_to_resource_page(&rows, &cfg, 98);
    assert_eq!(page.next_cursor.as_deref(), Some("100"));
    let p = profile(Some(cfg), Vec::new());
    let next = plan_listing(&p, page.next_cursor.as_deref())
        .unwrap()
        .unwrap();
    assert_eq!(next.prior_offset, 100);
}

#[test]
fn a_completion_binds_the_prefix() {
    let completions = vec![
        (
            "a".to_owned(),
            CompletionConfig {
                sql: "SELECT a LIKE ?".to_owned(),
                max_results: None,
            },
        ),
        (
            "b".to_owned(),
            CompletionConfig {
                sql: "SELECT b LIKE ?".to_owned(),
                max_results: Some(2),
            },
        ),
    ];
    let p = profile(None, completions);
    let plan = plan_completion(&p, "a", "pre'fix").unwrap();
    assert_eq!(plan.run.statement, "SELECT a LIKE ?");
    assert_eq!(plan.run.binds, vec![ChBind::Str("pre'fix".to_owned())]);
    assert_eq!(plan.max_results, 100);
    let plan = plan_completion(&p, "b", "").unwrap();
    assert_eq!(plan.run.statement, "SELECT b LIKE ?");
    assert_eq!(plan.max_results, 2);
    assert!(plan_completion(&p, "c", "").is_none());
}

#[test]
fn candidates_stand_in_the_first_column() {
    let rows = vec![
        doc("{\"name\":\"one\",\"id\":\"no\"}"),
        doc("{\"name\":null}"),
        doc("{\"name\":3}"),
        doc("{\"name\":\"four\"}"),
    ];
    assert_eq!(first_column(&rows).as_deref(), Some("name"));
    assert_eq!(first_column(&[]), None);
    assert_eq!(first_column(&[doc("{}")]), None);
    assert_eq!(completion_candidates(&rows, 100), vec!["one", "3", "four"]);
    assert_eq!(completion_candidates(&rows, 3), vec!["one", "3"]);
    assert_eq!(
        rows_to_completion_values(&rows, Some("id"), 9),
        vec!["no".to_owned()]
    );
    assert!(rows_to_completion_values(&rows, None, 9).is_empty());
}

#[test]
fn a_failed_query_is_a_transport_error() {
    let cfg = listing(ListQueryMode::Offset, 1);
    assert_eq!(
        finish_listing(Err("down".to_owned()), &cfg, 0),
        Err(BackendError::Transport {
            message: "down".to_owned()
        })
    );
    assert_eq!(
        finish_completion(Err("down".to_owned()), 1),
        Err(BackendError::Transport {
            message: "down".to_owned()
        })
    );
    let outcome = || QueryOutcome {
        rows: vec![doc("{\"uri\":\"a\"}")],
        truncated: false,
        row_count: 1,
    };
    assert_eq!(
        finish_listing(Ok(outcome()), &cfg, 4),
        Ok(rows_to_resource_page(&outcome().rows, &cfg, 4))
    );
    assert_eq!(finish_completion(Ok(outcome()), 1), Ok(vec!["a".to_owned()]));
}
