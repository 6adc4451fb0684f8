//! What is told of a call: the words for its outcome and the audit record of a
//! call that failed.
use crate::engine::filter_text;
use crate::json::{
    count, json_count, json_of, law_member_is_found, law_new_member_adds_one, no_members, object, put, string, under, JsonView,
    Members,
};
use crate::plugin::BackendError;
use crate::profile::string_text;
use crate::text::{append_decimal, decimal_text, same_text};
use vstd::prelude::*;
use vstd::string::*;

verus! {

/// The action under which a call with this outcome is audited, where it is.
pub open spec fn audit_action(label: Seq<char>) -> Option<Seq<char>> {
    if label == "timeout"@ {
        Some("dev.mcpg.backend.clickhouse.request_timeout"@)
    } else if label == "transport_error"@ {
        Some("dev.mcpg.backend.clickhouse.request_failed"@)
    } else if label == "clickhouse_error"@ {
        Some("dev.mcpg.backend.clickhouse.query_rejected"@)
    } else if label == "invalid_spec"@ {
        Some("dev.mcpg.backend.clickhouse.request_failed"@)
    } else {
        None
    }
}

/// Finds the action under which a call with this outcome is audited; a call that
/// went well, and one for a name that is not registered, is not.
pub fn audit_action_for_outcome(label: &str) -> (r: Option<&'static str>)
    ensures
        filter_text(r) == audit_action(label@),
{
    if same_text(label, "timeout") {
        Some("dev.mcpg.backend.clickhouse.request_timeout")
    } else if same_text(label, "transport_error") {
        Some("dev.mcpg.backend.clickhouse.request_failed")
    } else if same_text(label, "clickhouse_error") {
        Some("dev.mcpg.backend.clickhouse.query_rejected")
    } else if same_text(label, "invalid_spec") {
        Some("dev.mcpg.backend.clickhouse.request_failed")
    } else {
        None
    }
}

/// The word for the outcome of a call that was not taken in.
pub open spec fn refusal_word(error: BackendError) -> Seq<char> {
    match error {
        BackendError::InvalidSpec { .. } => "invalid_spec"@,
        BackendError::Transport { .. } => "transport_error"@,
        BackendError::ProfileNotFound { .. } => "profile_not_found"@,
    }
}

/// Finds the word for the outcome of a call that was not taken in.
pub fn refusal_label(error: &BackendError) -> (r: &'static str)
    ensures
        r@ == refusal_word(*error),
{
    match error {
        BackendError::InvalidSpec { .. } => "invalid_spec",
        BackendError::Transport { .. } => "transport_error",
        BackendError::ProfileNotFound { .. } => "profile_not_found",
    }
}

/// Who made a call.
#[derive(Debug, Clone, PartialEq)]
pub struct PluginIdentity {
    pub kind: String,
    pub trust_level: String,
    pub subject_id: Option<String>,
    pub auth_provider: Option<String>,
    pub issuer: Option<String>,
    pub roles: Vec<String>,
    pub groups: Vec<String>,
    pub scopes: Vec<String>,
    pub attributes: Vec<(String, String)>,
}

/// Whether an identity is that of the plugin itself.
pub open spec fn is_system(identity: PluginIdentity) -> bool {
    &&& identity.kind@ == "system"@
    &&& identity.trust_level@ == "verified"@
    &&& string_text(identity.subject_id) == Some("dev.mcpg.backend.clickhouse"@)
    &&& identity.auth_provider is None
    &&& identity.issuer is None
    &&& identity.roles@.len() == 0
    &&& identity.groups@.len() == 0
    &&& identity.scopes@.len() == 0
    &&& identity.attributes@.len() == 0
}

/// The identity of the plugin itself, for a call of which nobody is known to have
/// made it.
pub fn synthetic_system_identity() -> (r: PluginIdentity)
    ensures
        is_system(r),
{
    PluginIdentity {
        kind: "system".to_owned(),
        trust_level: "verified".to_owned(),
        subject_id: Some("dev.mcpg.backend.clickhouse".to_owned()),
        auth_provider: None,
        issuer: None,
        roles: Vec::new(),
        groups: Vec::new(),
        scopes: Vec::new(),
        attributes: Vec::new(),
    }
}

/// How an audited event came out.
#[derive(Debug, Clone, Copy, PartialEq, Eq, Structural)]
pub enum AuditOutcome {
    Success,
    Failure,
}

/// The audit record of a call that failed.
#[derive(Debug)]
pub struct AuditRecord {
    pub event_id: String,
    /// When the record was made, in RFC 3339.
    pub occurred_at: String,
    pub actor: PluginIdentity,
    pub action: String,
    pub resource: String,
    pub outcome: AuditOutcome,
    pub request_id: String,
    pub details: serde_json::Value,
}

/// The details of an audit record.
pub open spec fn audit_details(
    backend_name: Seq<char>,
    outcome_label: Seq<char>,
    reason: Option<Seq<char>>,
    alias: Seq<char>,
    duration_ms: nat,
) -> JsonView {
    let members = Members::none()
        .with("backend"@, JsonView::Text(backend_name))
        .with("duration_ms"@, json_count(duration_ms))
        .with("outcome"@, JsonView::Text(outcome_label))
        .with("alias"@, JsonView::Text(alias));
    JsonView::Fields(
        match reason {
            Some(said) => members.with("reason"@, JsonView::Text(said)),
            None => members,
        },
    )
}

/// The milliseconds of a duration in nanoseconds, in 64 bits.
pub open spec fn whole_millis(nanos: u128) -> u64 {
    (nanos / 1_000_000) as u64
}

/// A call as it is told of.
pub struct CallFacts<'a> {
    pub backend_name: &'a str,
    pub outcome_label: &'a str,
    pub reason: Option<&'a str>,
    pub request_id: &'a str,
    /// The name under which the host runs the plugin.
    pub alias: &'a str,
    pub duration_nanos: u128,
}

/// Whether `record` is the audit record, under `action`, of the call that `facts`
/// tells of.
pub open spec fn records(record: AuditRecord, facts: CallFacts<'_>, action: Seq<char>) -> bool {
    &&& record.event_id@ == "clickhouse-"@ + facts.request_id@ + "-"@ + decimal_text(
        facts.duration_nanos as nat,
    )
    &&& record.action@ == action
    &&& record.resource@ == "clickhouse-binding://"@ + facts.backend_name@
    &&& record.outcome == AuditOutcome::Failure
    &&& record.request_id@ == facts.request_id@
    &&& json_of(record.details) == audit_details(
        facts.backend_name@,
        facts.outcome_label@,
        filter_text(facts.reason),
        facts.alias@,
        whole_millis(facts.duration_nanos) as nat,
    )
}

/// Makes the audit record of a call, dated `occurred_at`, where its outcome is
/// audited. A call of which nobody is known to have made it is put down to the
/// plugin itself.
pub fn audit_record_at(
    facts: &CallFacts<'_>,
    identity: Option<PluginIdentity>,
    occurred_at: String,
) -> (r: Option<AuditRecord>)
    ensures
        match audit_action(facts.outcome_label@) {
            Some(action) => {
                &&& r matches Some(record)
                &&& records(record, *facts, action)
                &&& record.occurred_at == occurred_at
                &&& match identity {
                    Some(known) => record.actor == known,
                    None => is_system(record.actor),
                }
            },
            None => r is None,
        },
{
    let action: &'static str = match audit_action_for_outcome(facts.outcome_label) {
        Some(action) => action,
        None => {
            return None;
        },
    };
    let actor: PluginIdentity = match identity {
        Some(known) => known,
        None => synthetic_system_identity(),
    };
    let millis: u64 = #[verifier::truncate] ((facts.duration_nanos / 1_000_000) as u64);
    let mut members = no_members();
    put(&mut members, "backend", string(facts.backend_name));
    put(&mut members, "duration_ms", count(millis));
    put(&mut members, "outcome", string(facts.outcome_label));
    put(&mut members, "alias", string(facts.alias));
    if let Some(said) = facts.reason {
        put(&mut members, "reason", string(said));
    }
    let mut event_id: String = "clickhouse-".to_owned();
    event_id.append(facts.request_id);
    event_id.append("-");
    append_decimal(&mut event_id, facts.duration_nanos);
    Some(
        AuditRecord {
            event_id,
            occurred_at,
            actor,
            action: action.to_owned(),
            resource: "clickhouse-binding://".to_owned().concat(facts.backend_name),
            outcome: AuditOutcome::Failure,
            request_id: facts.request_id.to_owned(),
            details: object(members),
        },
    )
}

/// Calls `chrono::Utc::now` and writes the time with
/// `chrono::DateTime::to_rfc3339_opts`, to the millisecond and with a `Z`. The rest
/// of the text is the time of the call, of which nothing is stated. `Utc::now`
/// panics where the system clock stands before 1970.
#[verifier::external_body]
fn rfc3339_now() -> (r: String)
    ensures
        r@.len() >= 24,
        r@.last() == 'Z',
{
    chrono::Utc::now().to_rfc3339_opts(chrono::SecondsFormat::Millis, true)
}

/// Makes the audit record of a call, dated now, where its outcome is audited.
pub fn audit_record(facts: &CallFacts<'_>, identity: Option<PluginIdentity>) -> (r: Option<
    AuditRecord,
>)
    ensures
        match audit_action(facts.outcome_label@) {
            Some(action) => {
                &&& r matches Some(record)
                &&& records(record, *facts, action)
                &&& record.occurred_at@.last() == 'Z'
                &&& match identity {
                    Some(known) => record.actor == known,
                    None => is_system(record.actor),
                }
            },
            None => r is None,
        },
{
    audit_record_at(facts, identity, rfc3339_now())
}

/// Each outcome that is audited has its action, and no other outcome is audited.
pub proof fn law_failing_outcomes_are_audited(label: Seq<char>)
    ensures
        audit_action("timeout"@) == Some("dev.mcpg.backend.clickhouse.request_timeout"@),
        audit_action("transport_error"@) == Some("dev.mcpg.backend.clickhouse.request_failed"@),
        audit_action("clickhouse_error"@) == Some("dev.mcpg.backend.clickhouse.query_rejected"@),
        audit_action("invalid_spec"@) == Some("dev.mcpg.backend.clickhouse.request_failed"@),
        audit_action("ok"@) is None,
        audit_action("profile_not_found"@) is None,
        audit_action(label) is Some <==> label == "timeout"@ || label == "transport_error"@ || label
            == "clickhouse_error"@ || label == "invalid_spec"@,
{
    reveal_strlit("timeout");
    reveal_strlit("transport_error");
    reveal_strlit("clickhouse_error");
    reveal_strlit("invalid_spec");
    reveal_strlit("ok");
    reveal_strlit("profile_not_found");
    assert("timeout"@.len() == 7);
    assert("transport_error"@.len() == 15);
    assert("clickhouse_error"@.len() == 16);
    assert("invalid_spec"@.len() == 12);
    assert("ok"@.len() == 2);
    assert("profile_not_found"@.len() == 17);
}

/// Each refusal has its word.
pub proof fn law_refusals_have_their_word(said: String)
    ensures
        refusal_word(BackendError::InvalidSpec { message: said }) == "invalid_spec"@,
        refusal_word(BackendError::Transport { message: said }) == "transport_error"@,
        refusal_word(BackendError::ProfileNotFound { backend_name: said }) == "profile_not_found"@,
{
}

/// An audit record tells the binding, the outcome, the alias and the duration, and the
/// reason where, and only where, there is one.
pub proof fn law_audit_details_tell_the_call(
    backend_name: Seq<char>,
    outcome_label: Seq<char>,
    reason: Option<Seq<char>>,
    alias: Seq<char>,
    duration_ms: nat,
)
    ensures
        ({
            let details = audit_details(backend_name, outcome_label, reason, alias, duration_ms);
            &&& under(details, "backend"@) == Some(JsonView::Text(backend_name))
            &&& under(details, "outcome"@) == Some(JsonView::Text(outcome_label))
            &&& under(details, "alias"@) == Some(JsonView::Text(alias))
            &&& under(details, "duration_ms"@) == Some(json_count(duration_ms))
            &&& reason matches Some(said) ==> under(details, "reason"@) == Some(
                JsonView::Text(said),
            )
            &&& reason is None ==> under(details, "reason"@) is None
            &&& details matches JsonView::Fields(members) && members.pairs.len() == (
            if reason is Some {
                5nat
            } else {
                4nat
            })
        }),
{
    reveal_strlit("backend");
    reveal_strlit("outcome");
    reveal_strlit("alias");
    reveal_strlit("duration_ms");
    reveal_strlit("reason");
    assert("backend"@[0] == 'b');
    assert("outcome"@[0] == 'o');
    assert("alias"@[0] == 'a');
    assert("duration_ms"@[0] == 'd');
    assert("reason"@[0] == 'r');
    broadcast use {law_member_is_found, law_new_member_adds_one};

}

/// Whole milliseconds are those that have passed, where they fit 64 bits.
pub proof fn law_whole_millis(nanos: u128)
    ensures
        whole_millis(nanos) == (nanos / 1_000_000) as u64,
        nanos < 0x1_0000_0000_0000_0000 ==> whole_millis(nanos) * 1_000_000 <= nanos < (
        whole_millis(nanos) + 1) * 1_000_000,
{
}

/// A record of a call bears the request and the duration in its id, the action, the
/// binding as its resource, and the failure.
pub proof fn law_record_tells_the_call(record: AuditRecord, facts: CallFacts<'_>, action: Seq<char>)
    requires
        records(record, facts, action),
    ensures
        record.event_id@ == "clickhouse-"@ + facts.request_id@ + "-"@ + decimal_text(
            facts.duration_nanos as nat,
        ),
        record.action@ == action,
        record.resource@ == "clickhouse-binding://"@ + facts.backend_name@,
        record.outcome == AuditOutcome::Failure,
        record.request_id@ == facts.request_id@,
        json_of(record.details) == audit_details(
            facts.backend_name@,
            facts.outcome_label@,
            filter_text(facts.reason),
            facts.alias@,
            whole_millis(facts.duration_nanos) as nat,
        ),
{
}

/// The plugin's own identity is a verified one of the system, under its id, with no
/// rights of its own.
pub proof fn law_system_identity(identity: PluginIdentity)
    requires
        is_system(identity),
    ensures
        identity.kind@ == "system"@,
        identity.trust_level@ == "verified"@,
        identity.subject_id matches Some(id) && id@ == "dev.mcpg.backend.clickhouse"@,
        identity.auth_provider is None,
        identity.issuer is None,
        identity.roles@.len() == 0,
        identity.groups@.len() == 0,
        identity.scopes@.len() == 0,
        identity.attributes@.len() == 0,
{
}

} // verus!
