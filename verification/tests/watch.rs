use clickhouse_binding::engine::{DriverFailure, DriverReply, QueryOutcome};
use clickhouse_binding::plugin::PluginClass;
use clickhouse_binding::types::{ClickHouseAuth, ClickHouseTls};
use clickhouse_binding::watch::{
    cursor_from_outcome, default_interval_ms, default_timeout_ms, read_tick, start_watch,
    ClickHouseWatchCdylib, PollState, WatchError, WatchSpec, Watcher, PLUGIN_ID, WATCH_KIND,
};
use serde_json::Value;

fn doc(text: &str) -> Value {
    serde_json::from_str(text).expect("document")
}

fn spec(url: &str, tracking_query: &str, verify_peer: bool) -> WatchSpec {
    WatchSpec {
        url: url.to_owned(),
        database: None,
        auth: ClickHouseAuth::default(),
        tls: ClickHouseTls { verify_peer },
        tracking_query: tracking_query.to_owned(),
        interval_ms: default_interval_ms(),
        timeout_ms: default_timeout_ms(),
    }
}

fn refusal(started: Result<Watcher, WatchError>) -> String {
    match started {
        Err(WatchError::InvalidSpec { message }) => message,
        Err(WatchError::Subscribe { message }) => panic!("{message}"),
        Ok(_) => panic!("started"),
    }
}

#[test]
fn manifest_and_kind_are_correct() {
    let p = ClickHouseWatchCdylib::from_host_config("");
    let m = p.manifest();
    assert_eq!(m.id, PLUGIN_ID);
    assert_eq!(m.plugin_class, PluginClass::WatchStrategy);
    assert_eq!(p.kind(), WATCH_KIND);
    assert_eq!(m.name, "ClickHouse Poll Watch Strategy");
    assert_eq!(WATCH_KIND, "clickhouse_poll");
}

#[test]
fn empty_tracking_query_is_invalid_spec() {
    assert!(matches!(
        start_watch(spec("http://localhost:8123", "   ", true), Ok(())),
        Err(WatchError::InvalidSpec { .. })
    ));
}

#[test]
fn non_read_only_tracking_query_is_invalid_spec() {
    assert!(matches!(
        start_watch(
            spec(
                "http://localhost:8123",
                "INSERT INTO events VALUES (now())",
                true
            ),
            Err("statement must be read-only".to_owned())
        ),
        Err(WatchError::InvalidSpec { .. })
    ));
}

#[test]
fn verify_peer_false_is_invalid_spec() {
    assert!(matches!(
        start_watch(
            spec("http://localhost:8123", "SELECT max(t) FROM e", false),
            Ok(())
        ),
        Err(WatchError::InvalidSpec { .. })
    ));
}

#[test]
fn cursor_from_outcome_extracts_first_scalar() {
    let outcome = QueryOutcome {
        rows: vec![doc("{ \"max(event_time)\": \"2026-06-23 10:00:00\" }")],
        truncated: false,
        row_count: 1,
    };
    assert_eq!(
        cursor_from_outcome(&outcome).as_deref(),
        Some("2026-06-23 10:00:00")
    );
    let outcome = QueryOutcome {
        rows: vec![doc("{ \"count()\": 42 }")],
        truncated: false,
        row_count: 1,
    };
    assert_eq!(cursor_from_outcome(&outcome).as_deref(), Some("42"));
}

#[test]
fn cursor_from_outcome_none_on_zero_rows_or_null() {
    let empty = QueryOutcome {
        rows: vec![],
        truncated: false,
        row_count: 0,
    };
    assert_eq!(cursor_from_outcome(&empty), None);
    let null = QueryOutcome {
        rows: vec![doc("{ \"max(t)\": null }")],
        truncated: false,
        row_count: 1,
    };
    assert_eq!(cursor_from_outcome(&null), None);
}

#[test]
fn cursor_is_the_first_column_of_the_query() {
    assert_eq!(
        read_tick(Ok(DriverReply::Fetched(
            b"{\"seen_at\":\"10:00\",\"count()\":3}\n".to_vec()
        ))),
        Ok(Some("10:00".to_owned()))
    );
    let outcome = QueryOutcome {
        rows: vec![doc("{ \"b\": [true, 1.5], \"a\": 1 }")],
        truncated: false,
        row_count: 1,
    };
    assert_eq!(cursor_from_outcome(&outcome).as_deref(), Some("[true,1.5]"));
    let bare = QueryOutcome {
        rows: vec![doc("{}")],
        truncated: false,
        row_count: 1,
    };
    assert_eq!(cursor_from_outcome(&bare), None);
}

#[test]
fn the_first_reason_is_told() {
    assert_eq!(
        refusal(start_watch(spec(" ", " ", false), Err("no".to_owned()))),
        "url must not be empty"
    );
    assert_eq!(
        refusal(start_watch(spec("u", " ", false), Err("no".to_owned()))),
        "tracking_query must not be empty"
    );
    assert_eq!(
        refusal(start_watch(spec("u", "q", false), Err("no".to_owned()))),
        "no"
    );
    assert_eq!(
        refusal(start_watch(spec("u", "q", false), Ok(()))),
        "clickhouse tls.verify_peer=false is not supported; configure a trusted CA instead"
    );
    let mut bare = spec("u", "q", true);
    bare.auth.password = Some("cred://ch-creds/reader".to_owned());
    assert!(start_watch(bare, Ok(())).is_ok());
}

#[test]
fn an_accepted_watch_prepares_its_query() {
    let mut configured = spec("http://localhost:8123", "SELECT '??', max(t) FROM e", true);
    configured.interval_ms = 10;
    configured.timeout_ms = 5_000;
    let watcher = match start_watch(configured, Ok(())) {
        Ok(watcher) => watcher,
        Err(_) => panic!("refused"),
    };
    assert_eq!(watcher.interval_ms, 250);
    assert_eq!(watcher.timeout_ms, 5_000);
    let tick = watcher.prepare_tick();
    assert!(tick.fetches);
    assert_eq!(
        tick.query.sql_display().to_string(),
        "SELECT '?', max(t) FROM e"
    );
    let slow = match start_watch(spec("http://localhost:8123", "SELECT 1", true), Ok(())) {
        Ok(watcher) => watcher,
        Err(_) => panic!("refused"),
    };
    assert_eq!(slow.interval_ms, 60_000);
    assert_eq!(slow.timeout_ms, 10_000);
}

#[test]
fn ticks_are_read() {
    assert_eq!(
        read_tick(Ok(DriverReply::Fetched(b"{\"m\":7}\n{\"m\":8}\n".to_vec()))),
        Ok(Some("7".to_owned()))
    );
    assert_eq!(read_tick(Ok(DriverReply::Fetched(Vec::new()))), Ok(None));
    assert_eq!(
        read_tick(Err(DriverFailure::TimedOut)),
        Err("ClickHouse call timed out".to_owned())
    );
    assert!(read_tick(Ok(DriverReply::Fetched(b"7".to_vec()))).is_err());
}

#[test]
fn a_change_is_signalled_once_and_never_at_the_start() {
    let mut state = PollState::new();
    assert!(!state.observe(Ok(None)));
    assert!(!state.observe(Ok(Some("1".to_owned()))));
    assert!(!state.observe(Ok(Some("1".to_owned()))));
    assert!(!state.observe(Err("connection refused".to_owned())));
    assert!(!state.observe(Ok(None)));
    assert!(!state.observe(Ok(Some("1".to_owned()))));
    assert!(state.observe(Ok(Some("2".to_owned()))));
    assert!(!state.observe(Ok(Some("2".to_owned()))));
    assert_eq!(state.last.as_deref(), Some("2"));
}
