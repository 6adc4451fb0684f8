use clickhouse_binding::json::{as_plain_text, first_member, is_object, member, member_text};
use clickhouse_binding::observe::{
    audit_action_for_outcome, audit_record, audit_record_at, refusal_label,
    synthetic_system_identity, AuditOutcome, CallFacts, PluginIdentity,
};
use clickhouse_binding::params::{
    arguments_referenced_by_params, extract_argument_idents, params_input_schema, CompiledParam,
};
use clickhouse_binding::plugin::BackendError;
use clickhouse_binding::text::{
    contains, decimal, lower_chars, parse_u64, same_ignoring_case, same_text, trim,
};
use serde_json::Value;

fn doc(text: &str) -> Value {
    serde_json::from_str(text).expect("document")
}

fn facts(label: &str) -> CallFacts<'_> {
    CallFacts {
        backend_name: "orders",
        outcome_label: label,
        reason: Some("why"),
        request_id: "rq-1",
        alias: "ch",
        duration_nanos: 1_999_999,
    }
}

#[test]
fn extract_argument_idents_finds_names() {
    let got = extract_argument_idents("arguments.user_id + size(arguments.tags)");
    assert_eq!(got, vec!["user_id".to_owned(), "tags".to_owned()]);
    assert!(extract_argument_idents("1 + 2").is_empty());
}

#[test]
fn names_end_where_the_word_ends() {
    assert_eq!(
        extract_argument_idents("arguments.a.b arguments. arguments.arguments.c"),
        vec!["a".to_owned(), "arguments".to_owned()]
    );
    assert_eq!(
        extract_argument_idents("\u{e9}arguments.x\u{e9} arguments.x"),
        vec!["x".to_owned(), "x".to_owned()]
    );
}

#[test]
fn referenced_arguments_are_listed_once() {
    let params: Vec<CompiledParam> = ["arguments.b + arguments.a", "arguments.b", "1"]
        .iter()
        .map(|source| CompiledParam {
            source: source.to_string(),
        })
        .collect();
    let names = arguments_referenced_by_params(&params);
    assert_eq!(names, vec!["b".to_owned(), "a".to_owned()]);
    assert_eq!(
        params_input_schema(&names),
        doc("{\"type\":\"object\",\"properties\":{\"a\":{},\"b\":{}},\"additionalProperties\":true}")
    );
}

#[test]
fn texts_are_trimmed_and_compared() {
    for s in ["", " \t\r\n", " a b ", "\u{a0}x\u{2028}", "\u{200b}x"] {
        assert_eq!(trim(s), s.trim());
    }
    assert!(contains("abcabd", "abd"));
    assert!(contains("abc", ""));
    assert!(!contains("abc", "abcd"));
    assert_eq!(
        lower_chars("A\u{c9}z").into_iter().collect::<String>(),
        "A\u{c9}z".to_ascii_lowercase()
    );
    assert!(same_text("a", "a") && !same_text("a", "A"));
    assert!(same_ignoring_case("aB", "Ab") && !same_ignoring_case("\u{e9}", "\u{c9}"));
}

#[test]
fn numerals_read_back() {
    for n in [0u64, 9, 10, 1_000, u64::MAX] {
        assert_eq!(decimal(n as u128), n.to_string());
        assert_eq!(parse_u64(&decimal(n as u128)), Some(n));
    }
    assert_eq!(decimal(u128::MAX), u128::MAX.to_string());
    assert_eq!(parse_u64(&decimal(u64::MAX as u128 + 1)), None);
}

#[test]
fn documents_are_taken_apart() {
    let value = doc("{\"b\":\"s\",\"a\":1.5,\"c\":null}");
    assert!(is_object(&value) && !is_object(&doc("[]")));
    assert_eq!(member(&value, "c"), Some(&Value::Null));
    assert_eq!(member(&value, "d"), None);
    assert_eq!(member_text(&value, "b").map(String::as_str), Some("s"));
    assert_eq!(member_text(&value, "a"), None);
    assert_eq!(
        first_member(&value).map(|(name, _)| name.as_str()),
        Some("b")
    );
    assert!(first_member(&doc("{}")).is_none());
    assert_eq!(as_plain_text(&doc("\"s\"")).as_deref(), Some("s"));
    assert_eq!(as_plain_text(&doc("null")), None);
    assert_eq!(as_plain_text(&value).as_deref(), Some("{\"b\":\"s\",\"a\":1.5,\"c\":null}"));
}

#[test]
fn outcomes_have_their_audit_action() {
    assert_eq!(
        audit_action_for_outcome("timeout"),
        Some("dev.mcpg.backend.clickhouse.request_timeout")
    );
    assert_eq!(
        audit_action_for_outcome("transport_error"),
        Some("dev.mcpg.backend.clickhouse.request_failed")
    );
    assert_eq!(
        audit_action_for_outcome("clickhouse_error"),
        Some("dev.mcpg.backend.clickhouse.query_rejected")
    );
    assert_eq!(
        audit_action_for_outcome("invalid_spec"),
        Some("dev.mcpg.backend.clickhouse.request_failed")
    );
    assert_eq!(audit_action_for_outcome("ok"), None);
    assert_eq!(audit_action_for_outcome("profile_not_found"), None);
}

#[test]
fn refusals_have_their_word() {
    assert_eq!(
        refusal_label(&BackendError::ProfileNotFound {
            backend_name: "x".to_owned()
        }),
        "profile_not_found"
    );
    assert_eq!(
        refusal_label(&BackendError::InvalidSpec {
            message: "x".to_owned()
        }),
        "invalid_spec"
    );
    assert_eq!(
        refusal_label(&BackendError::Transport {
            message: "x".to_owned()
        }),
        "transport_error"
    );
}

#[test]
fn a_failed_call_is_recorded() {
    let record = audit_record_at(&facts("timeout"), None, "now".to_owned()).expect("record");
    assert_eq!(record.event_id, "clickhouse-rq-1-1999999");
    assert_eq!(record.occurred_at, "now");
    assert_eq!(record.actor, synthetic_system_identity());
    assert_eq!(record.action, "dev.mcpg.backend.clickhouse.request_timeout");
    assert_eq!(record.resource, "clickhouse-binding://orders");
    assert_eq!(record.outcome, AuditOutcome::Failure);
    assert_eq!(record.request_id, "rq-1");
    assert_eq!(
        record.details,
        doc("{\"backend\":\"orders\",\"duration_ms\":1,\"outcome\":\"timeout\",\"alias\":\"ch\",\"reason\":\"why\"}")
    );
    let caller = PluginIdentity {
        kind: "user".to_owned(),
        ..synthetic_system_identity()
    };
    let mut told = facts("clickhouse_error");
    told.reason = None;
    let record =
        audit_record_at(&told, Some(caller.clone()), "now".to_owned()).expect("record");
    assert_eq!(record.actor, caller);
    assert_eq!(
        record.details,
        doc("{\"backend\":\"orders\",\"duration_ms\":1,\"outcome\":\"clickhouse_error\",\"alias\":\"ch\"}")
    );
    assert!(audit_record_at(&facts("ok"), None, "now".to_owned()).is_none());
}

#[test]
fn a_record_is_dated() {
    let record = audit_record(&facts("timeout"), None).expect("record");
    assert_eq!(record.occurred_at.len(), 24);
    assert_eq!(&record.occurred_at[10..11], "T");
    assert!(record.occurred_at.ends_with('Z'));
    assert!(audit_record(&facts("ok"), None).is_none());
}

#[test]
fn the_plugin_has_an_identity_of_its_own() {
    let identity = synthetic_system_identity();
    assert_eq!(identity.kind, "system");
    assert_eq!(identity.trust_level, "verified");
    assert_eq!(
        identity.subject_id.as_deref(),
        Some("dev.mcpg.backend.clickhouse")
    );
    assert!(identity.auth_provider.is_none() && identity.issuer.is_none());
    assert!(identity.roles.is_empty() && identity.groups.is_empty());
    assert!(identity.scopes.is_empty() && identity.attributes.is_empty());
}
