//! One call of a binding: the statement that it runs with the values it binds, and
//! the answer that is made of what came back.
use crate::engine::{
    build_list_columns_query, build_list_tables_query, effective_filter, filter_binds,
    law_list_columns_placeholders, law_list_tables_placeholders, limit_bind, list_columns_sql,
    list_tables_sql, CatalogQuery, QueryOutcome,
};
use crate::envelope::{
    build_result_envelope, classified, classify_error, envelope_members, is_retryable,
    law_envelope_is_answer_or_error, law_envelope_tells_what_it_is_given,
    law_response_holds_the_rows, response_member, retryable,
};
use crate::json::{
    compact_json, empty_object, json_count, json_each, json_empty_object, json_of, json_parse_bytes,
    parse_bytes, text_under, under, write_bytes, JsonView,
};
use crate::observe::audit_action;
use crate::params::{
    bind_views, json_to_ch_bind, law_different_scalars_are_bound_differently, not_scalar_message,
    scalar_bind, BindView, ChBind, CompiledParam,
};
use crate::plugin::BackendError;
use crate::profile::{
    borrow_text, profile_of, resolved_filter, spec_error, string_text, ClickHouseProfile,
    ReadOnlyVerdicts,
};
use crate::surface::{
    contents_body, messages_body, prompt_messages_body, resolve_resource_uri,
    resource_contents_body, resource_uri, Surface,
};
use crate::text::{
    has_part, is_blank, lower_chars, lowered, occurs, same_ignoring_case, trimmed,
};
use crate::types::{bind_count, reads_catalog, ClickHouseBackendSpec, ClickHouseOperation};
use vstd::prelude::*;
use vstd::string::*;
use vstd::utf8::encode_utf8;

verus! {

/// What is said of a payload that is no JSON document.
pub open spec fn payload_error(message: Seq<char>) -> Seq<char> {
    "ClickHouse plugin payload is not valid JSON: "@ + message
}

/// Reads the arguments of a call from its payload; an empty payload holds none.
pub fn read_arguments(payload: &[u8]) -> (r: Result<serde_json::Value, BackendError>)
    ensures
        payload@.len() == 0 ==> r is Ok && json_of(r->Ok_0) == json_empty_object(),
        payload@.len() > 0 ==> match json_parse_bytes(payload@) {
            Ok(document) => r is Ok && json_of(r->Ok_0) == document,
            Err(message) => {
                &&& r matches Err(BackendError::InvalidSpec { message: given })
                &&& given@ == payload_error(message)
            },
        },
{
    if payload.len() == 0 {
        return Ok(empty_object());
    }
    take_arguments(parse_bytes(payload))
}

/// The arguments of a call, from what became of reading its payload.
pub fn take_arguments(parsed: Result<serde_json::Value, String>) -> (r: Result<
    serde_json::Value,
    BackendError,
>)
    ensures
        match parsed {
            Ok(value) => r == Ok::<serde_json::Value, BackendError>(value),
            Err(message) => {
                &&& r matches Err(BackendError::InvalidSpec { message: given })
                &&& given@ == payload_error(message@)
            },
        },
{
    match parsed {
        Ok(value) => Ok(value),
        Err(e) => Err(
            BackendError::InvalidSpec {
                message: "ClickHouse plugin payload is not valid JSON: ".to_owned().concat(
                    e.as_str(),
                ),
            },
        ),
    }
}

/// Whether a header names the tool.
pub open spec fn names_tool(header: (String, String)) -> bool {
    lowered(header.0@) == lowered("mcpg-tool-name"@)
}

/// The tool that a call is for: the first header that names one, else the
/// binding.
pub open spec fn called_tool(headers: Seq<(String, String)>, backend_name: Seq<char>) -> Seq<char>
    decreases headers.len(),
{
    if headers.len() == 0 {
        backend_name
    } else if names_tool(headers[0]) {
        headers[0].1@
    } else {
        called_tool(headers.skip(1), backend_name)
    }
}

/// Finds the tool that a call is for: the value of the first `mcpg-tool-name`
/// header, in any case of the letters, else the name of the binding.
pub fn tool_name(headers: &[(String, String)], backend_name: &str) -> (r: String)
    ensures
        r@ == called_tool(headers@, backend_name@),
{
    let n: usize = headers.len();
    assert(headers@.skip(0) =~= headers@);
    for i in 0..n
        invariant
            n == headers@.len(),
            called_tool(headers@.skip(i as int), backend_name@) == called_tool(
                headers@,
                backend_name@,
            ),
    {
        assert(headers@.skip(i as int)[0] == headers@[i as int]);
        assert(headers@.skip(i as int).skip(1) =~= headers@.skip(i + 1));
        if same_ignoring_case(headers[i].0.as_str(), "mcpg-tool-name") {
            return headers[i].1.clone();
        }
    }
    assert(headers@.skip(n as int).len() == 0);
    backend_name.to_owned()
}

/// What one call runs.
#[derive(Debug, Clone, PartialEq)]
pub struct CallPlan {
    pub statement: String,
    /// The values for the `?` of the statement, in order.
    pub binds: Vec<ChBind>,
}

/// Whether each document can be bound.
pub open spec fn all_scalar(documents: Seq<JsonView>) -> bool {
    forall|i: int| 0 <= i < documents.len() ==> scalar_bind(#[trigger] documents[i]) is Some
}

/// The scalars that documents are bound as.
pub open spec fn scalar_binds(documents: Seq<JsonView>) -> Seq<BindView> {
    documents.map_values(|d: JsonView| scalar_bind(d)->Some_0)
}

/// Makes the scalars to bind of evaluated parameters.
pub fn bind_params(values: Vec<serde_json::Value>) -> (r: Result<Vec<ChBind>, String>)
    ensures
        match r {
            Ok(binds) => all_scalar(json_each(values@)) && bind_views(binds@) == scalar_binds(
                json_each(values@),
            ),
            Err(message) => !all_scalar(json_each(values@)) && message@ == not_scalar_message(),
        },
{
    let ghost documents = json_each(values@);
    let n: usize = values.len();
    let mut binds: Vec<ChBind> = Vec::new();
    for i in 0..n
        invariant
            n == values@.len(),
            documents == json_each(values@),
            all_scalar(documents.take(i as int)),
            bind_views(binds@) == scalar_binds(documents.take(i as int)),
    {
        assert(documents[i as int] == json_of(values@[i as int]));
        match json_to_ch_bind(values[i].clone()) {
            Ok(bind) => {
                let ghost earlier = binds@;
                binds.push(bind);
                proof {
                    let now = documents.take(i + 1);
                    assert forall|j: int| 0 <= j < now.len() implies scalar_bind(
                        #[trigger] now[j],
                    ) is Some by {
                        if j < i {
                            assert(documents.take(i as int)[j] == now[j]);
                        }
                    }
                    assert(bind_views(binds@) =~= bind_views(earlier).push(bind@));
                    assert(scalar_binds(now) =~= scalar_binds(documents.take(i as int)).push(
                        bind@,
                    ));
                }
            },
            Err(message) => {
                return Err(message);
            },
        }
    }
    assert(documents.take(n as int) =~= documents);
    Ok(binds)
}

/// The documents of evaluated parameters.
pub open spec fn evaluated_documents(evaluated: Result<Vec<serde_json::Value>, String>) -> Seq<
    JsonView,
> {
    match evaluated {
        Ok(values) => json_each(values@),
        Err(_) => Seq::empty(),
    }
}

/// Why a call is refused before anything is sent, if it is. A catalog operation
/// takes no parameters.
pub open spec fn call_error(
    operation: ClickHouseOperation,
    evaluated: Result<Vec<serde_json::Value>, String>,
) -> Option<Seq<char>> {
    if reads_catalog(operation) {
        None
    } else {
        match evaluated {
            Err(message) => Some("evaluating params: "@ + message@),
            Ok(values) => if all_scalar(json_each(values@)) {
                None
            } else {
                Some("binding params: "@ + not_scalar_message())
            },
        }
    }
}

/// The database filter of a catalog operation for one call.
pub open spec fn database_filter(profile: ClickHouseProfile, arguments: JsonView) -> Option<
    Seq<char>,
> {
    effective_filter(
        resolved_filter(
            string_text(profile.catalog_filters.database),
            string_text(profile.catalog_filters.database_arg),
            arguments,
        ),
    )
}

/// The table filter of a catalog operation for one call.
pub open spec fn table_filter(profile: ClickHouseProfile, arguments: JsonView) -> Option<
    Seq<char>,
> {
    effective_filter(
        resolved_filter(
            string_text(profile.catalog_filters.table),
            string_text(profile.catalog_filters.table_arg),
            arguments,
        ),
    )
}

/// The operator-fixed statement of a binding: on the resource surface its
/// `read_query` where it has one.
pub open spec fn fixed_statement(profile: ClickHouseProfile) -> Seq<char> {
    match (profile.surface, profile.read_query) {
        (Surface::Resource, Some(sql)) => sql@,
        _ => profile.statement@,
    }
}

/// The statement that one call runs.
pub open spec fn call_statement(profile: ClickHouseProfile, arguments: JsonView) -> Seq<char> {
    match profile.operation {
        ClickHouseOperation::Query => fixed_statement(profile),
        ClickHouseOperation::ListTables => list_tables_sql(
            database_filter(profile, arguments) is Some,
        ),
        ClickHouseOperation::ListColumns => list_columns_sql(
            database_filter(profile, arguments) is Some,
            table_filter(profile, arguments) is Some,
        ),
    }
}

/// The values that one call binds, where `parameters` are its evaluated
/// parameters.
pub open spec fn call_binds(
    profile: ClickHouseProfile,
    arguments: JsonView,
    parameters: Seq<JsonView>,
) -> Seq<BindView> {
    match profile.operation {
        ClickHouseOperation::Query => scalar_binds(parameters),
        ClickHouseOperation::ListTables => filter_binds(database_filter(profile, arguments)).push(
            limit_bind(profile.max_rows),
        ),
        ClickHouseOperation::ListColumns => (filter_binds(database_filter(profile, arguments))
            + filter_binds(table_filter(profile, arguments))).push(limit_bind(profile.max_rows)),
    }
}

/// Decides what one call runs. A catalog operation resolves its filters from the
/// arguments and binds them. The `query` operation binds the evaluated parameters
/// to the operator-fixed statement; a parameter that could not be evaluated, or
/// that is no scalar, refuses the call.
pub fn plan_call(
    profile: &ClickHouseProfile,
    arguments: &serde_json::Value,
    evaluated: Result<Vec<serde_json::Value>, String>,
) -> (r: Result<CallPlan, String>)
    ensures
        match r {
            Ok(plan) => {
                &&& call_error(profile.operation, evaluated) is None
                &&& plan.statement@ == call_statement(*profile, json_of(*arguments))
                &&& bind_views(plan.binds@) == call_binds(
                    *profile,
                    json_of(*arguments),
                    evaluated_documents(evaluated),
                )
            },
            Err(message) => call_error(profile.operation, evaluated) == Some(message@),
        },
{
    match profile.operation {
        ClickHouseOperation::Query => {
            let values: Vec<serde_json::Value> = match evaluated {
                Ok(values) => values,
                Err(e) => {
                    return Err("evaluating params: ".to_owned().concat(e.as_str()));
                },
            };
            let binds: Vec<ChBind> = match bind_params(values) {
                Ok(binds) => binds,
                Err(e) => {
                    return Err("binding params: ".to_owned().concat(e.as_str()));
                },
            };
            let statement: String = match (profile.surface, &profile.read_query) {
                (Surface::Resource, Some(sql)) => sql.clone(),
                _ => profile.statement.clone(),
            };
            Ok(CallPlan { statement, binds })
        },
        ClickHouseOperation::ListTables => {
            let (database, _) = profile.catalog_filters.resolve(arguments);
            let catalog: CatalogQuery = build_list_tables_query(
                borrow_text(&database),
                profile.max_rows,
            );
            Ok(CallPlan { statement: catalog.sql, binds: catalog.binds })
        },
        ClickHouseOperation::ListColumns => {
            let (database, table) = profile.catalog_filters.resolve(arguments);
            let catalog: CatalogQuery = build_list_columns_query(
                borrow_text(&database),
                borrow_text(&table),
                profile.max_rows,
            );
            Ok(CallPlan { statement: catalog.sql, binds: catalog.binds })
        },
    }
}

/// The answer to a call.
#[derive(Debug)]
pub struct CallReply {
    pub body: serde_json::Value,
    /// How the call ended, in one word.
    pub outcome_label: &'static str,
    /// Why the call failed, where it did.
    pub audit_reason: Option<String>,
}

/// The answer to a call as a mathematical value.
pub struct ReplyView {
    pub body: JsonView,
    pub label: Seq<char>,
    pub reason: Option<Seq<char>>,
}

impl View for CallReply {
    type V = ReplyView;

    open spec fn view(&self) -> ReplyView {
        ReplyView {
            body: json_of(self.body),
            label: self.outcome_label@,
            reason: string_text(self.audit_reason),
        }
    }
}

/// The envelope for a call that failed with `message`.
pub open spec fn failure_envelope(
    profile: ClickHouseProfile,
    backend_name: Seq<char>,
    tool_name: Seq<char>,
    message: Seq<char>,
) -> JsonView {
    JsonView::Fields(
        envelope_members(
            tool_name,
            backend_name,
            profile.database@,
            JsonView::Null,
            Some(classified(message)),
            Some(message),
        ),
    )
}

/// Builds the envelope for a call that failed with `message`.
fn build_failure_envelope(
    profile: &ClickHouseProfile,
    backend_name: &str,
    tool_name: &str,
    message: &str,
    duration_ms: u64,
) -> (r: serde_json::Value)
    ensures
        json_of(r) == failure_envelope(*profile, backend_name@, tool_name@, message@),
{
    let downstream = classify_error(message);
    build_result_envelope(
        tool_name,
        backend_name,
        profile.database.as_str(),
        None,
        None,
        false,
        duration_ms as u128,
        Some(&downstream),
        Some(message),
    )
}

/// The word for a call that failed with `message`.
pub open spec fn failure_label(message: Seq<char>) -> Seq<char> {
    if occurs(lowered(message), "timed out"@) || occurs(lowered(message), "timeout"@) {
        "timeout"@
    } else if is_retryable(message) {
        "transport_error"@
    } else {
        "clickhouse_error"@
    }
}

fn label_failure(message: &str) -> (r: &'static str)
    ensures
        r@ == failure_label(message@),
{
    let lower = lower_chars(message);
    if has_part(&lower, "timed out") || has_part(&lower, "timeout") {
        "timeout"
    } else if retryable(message) {
        "transport_error"
    } else {
        "clickhouse_error"
    }
}

/// Answers a call that was refused before anything was sent: an error envelope.
pub fn refuse_call(
    profile: &ClickHouseProfile,
    backend_name: &str,
    tool_name: &str,
    message: &str,
    duration_ms: u64,
) -> (r: CallReply)
    ensures
        r@ == (ReplyView {
            body: failure_envelope(*profile, backend_name@, tool_name@, message@),
            label: "invalid_spec"@,
            reason: Some(message@),
        }),
{
    CallReply {
        body: build_failure_envelope(profile, backend_name, tool_name, message, duration_ms),
        outcome_label: "invalid_spec",
        audit_reason: Some(message.to_owned()),
    }
}

/// What is said of a resource that has no URI to be read under.
pub open spec fn no_uri_message() -> Seq<char> {
    "resource surface requires a `uri` (set a static `uri` on the binding or invoke via a resources/read request)"@
}

/// The body of the answer to a call that brought rows, for the surface that the
/// binding serves; none for a resource that has no URI to be read under.
pub open spec fn success_body(
    profile: ClickHouseProfile,
    backend_name: Seq<char>,
    tool_name: Seq<char>,
    arguments: JsonView,
    outcome: QueryOutcome,
    duration_ms: nat,
) -> Option<JsonView> {
    let rows = json_each(outcome.rows@);
    match profile.surface {
        Surface::Tool => Some(
            JsonView::Fields(
                envelope_members(
                    tool_name,
                    backend_name,
                    profile.database@,
                    response_member(
                        Some(rows),
                        Some(outcome.row_count as nat),
                        outcome.truncated,
                        duration_ms,
                    ),
                    None,
                    None,
                ),
            ),
        ),
        Surface::Resource => match resource_uri(string_text(profile.surface_uri), arguments) {
            Some(uri) => Some(contents_body(uri, rows)),
            None => None,
        },
        Surface::Prompt => Some(messages_body(rows)),
    }
}

/// The answer to a call that was sent.
pub open spec fn reply_to(
    profile: ClickHouseProfile,
    backend_name: Seq<char>,
    tool_name: Seq<char>,
    arguments: JsonView,
    result: Result<QueryOutcome, String>,
    duration_ms: nat,
) -> ReplyView {
    match result {
        Ok(outcome) => match success_body(
            profile,
            backend_name,
            tool_name,
            arguments,
            outcome,
            duration_ms,
        ) {
            Some(body) => ReplyView { body, label: "ok"@, reason: None },
            None => ReplyView {
                body: failure_envelope(profile, backend_name, tool_name, no_uri_message()),
                label: "clickhouse_error"@,
                reason: Some(no_uri_message()),
            },
        },
        Err(message) => ReplyView {
            body: failure_envelope(profile, backend_name, tool_name, message@),
            label: failure_label(message@),
            reason: Some(message@),
        },
    }
}

/// Answers a call that was sent, in the shape of the surface that the binding
/// serves. A failed call, and a resource without a URI to be read under, are
/// answered with an error envelope on every surface.
pub fn finish_call(
    profile: &ClickHouseProfile,
    backend_name: &str,
    tool_name: &str,
    arguments: &serde_json::Value,
    result: Result<QueryOutcome, String>,
    duration_ms: u64,
) -> (r: CallReply)
    ensures
        r@ == reply_to(
            *profile,
            backend_name@,
            tool_name@,
            json_of(*arguments),
            result,
            duration_ms as nat,
        ),
{
    let outcome: QueryOutcome = match result {
        Ok(outcome) => outcome,
        Err(message) => {
            return CallReply {
                body: build_failure_envelope(
                    profile,
                    backend_name,
                    tool_name,
                    message.as_str(),
                    duration_ms,
                ),
                outcome_label: label_failure(message.as_str()),
                audit_reason: Some(message),
            };
        },
    };
    let body: serde_json::Value = match profile.surface {
        Surface::Tool => build_result_envelope(
            tool_name,
            backend_name,
            profile.database.as_str(),
            Some(outcome.rows.as_slice()),
            Some(outcome.row_count),
            outcome.truncated,
            duration_ms as u128,
            None,
            None,
        ),
        Surface::Resource => match resolve_resource_uri(
            borrow_text(&profile.surface_uri),
            arguments,
        ) {
            Some(uri) => resource_contents_body(uri, outcome.rows.as_slice()),
            None => {
                let message: &str =
                    "resource surface requires a `uri` (set a static `uri` on the binding or invoke via a resources/read request)";
                return CallReply {
                    body: build_failure_envelope(
                        profile,
                        backend_name,
                        tool_name,
                        message,
                        duration_ms,
                    ),
                    outcome_label: "clickhouse_error",
                    audit_reason: Some(message.to_owned()),
                };
            },
        },
        Surface::Prompt => prompt_messages_body(outcome.rows.as_slice()),
    };
    CallReply { body, outcome_label: "ok", audit_reason: None }
}

/// What is sent back for a call.
#[derive(Debug, Clone, PartialEq)]
pub struct BackendResponse {
    pub payload: Vec<u8>,
    pub truncated: bool,
}

/// What is said of a body that could not be written out.
pub open spec fn serialization_error(message: Seq<char>) -> Seq<char> {
    "ClickHouse plugin envelope serialization failed: "@ + message
}

/// Writes out the body of an answer. Every body can be written out.
pub fn finalize_payload(envelope: serde_json::Value) -> (r: Result<BackendResponse, BackendError>)
    ensures
        r matches Ok(response) && response.payload@ == encode_utf8(compact_json(json_of(envelope)))
            && !response.truncated,
{
    respond(write_bytes(&envelope))
}

/// The response for a body, from what became of writing it out.
pub fn respond(written: Result<Vec<u8>, String>) -> (r: Result<BackendResponse, BackendError>)
    ensures
        match written {
            Ok(payload) => {
                &&& r matches Ok(response)
                &&& response.payload == payload
                &&& !response.truncated
            },
            Err(message) => {
                &&& r matches Err(BackendError::Transport { message: given })
                &&& given@ == serialization_error(message@)
            },
        },
{
    match written {
        Ok(payload) => Ok(BackendResponse { payload, truncated: false }),
        Err(e) => Err(
            BackendError::Transport {
                message: "ClickHouse plugin envelope serialization failed: ".to_owned().concat(
                    e.as_str(),
                ),
            },
        ),
    }
}

/// No argument of a call alters a statement: that of the `query` operation is the
/// operator's, and that of a catalog operation depends on which filters there are
/// and not on what they say.
pub proof fn law_arguments_never_alter_the_statement(
    profile: ClickHouseProfile,
    arguments: JsonView,
    others: JsonView,
)
    ensures
        profile.operation == ClickHouseOperation::Query ==> call_statement(profile, arguments)
            == fixed_statement(profile),
        (database_filter(profile, arguments) is Some) == (database_filter(profile, others) is Some)
            && (table_filter(profile, arguments) is Some) == (table_filter(profile, others) is Some)
            ==> call_statement(profile, arguments) == call_statement(profile, others),
{
}

/// A text under the configured argument overrides the operator's filter, unless it
/// is blank; without one the operator's filter stands.
pub proof fn law_argument_overrides_fixed_filter(
    fixed: Option<Seq<char>>,
    name: Seq<char>,
    arguments: JsonView,
)
    ensures
        text_under(arguments, name) matches Some(given) ==> resolved_filter(
            fixed,
            Some(name),
            arguments,
        ) == if is_blank(given) {
            fixed
        } else {
            Some(given)
        },
        text_under(arguments, name) is None ==> resolved_filter(fixed, Some(name), arguments)
            == fixed,
        resolved_filter(fixed, None, arguments) == fixed,
{
}

/// Arguments never take an operator's filter away: where the binding fixes a
/// database or a table, every call is held to one, whatever it says.
pub proof fn law_arguments_never_remove_a_fixed_filter(
    profile: ClickHouseProfile,
    arguments: JsonView,
)
    ensures
        effective_filter(string_text(profile.catalog_filters.database)) is Some ==> database_filter(
            profile,
            arguments,
        ) is Some,
        effective_filter(string_text(profile.catalog_filters.table)) is Some ==> table_filter(
            profile,
            arguments,
        ) is Some,
{
}

/// Every statement of a catalog operation has one placeholder for each value that
/// the call binds, and nothing that it runs can write.
pub proof fn law_catalog_call_is_complete_and_reads(
    profile: ClickHouseProfile,
    arguments: JsonView,
    parameters: Seq<JsonView>,
)
    requires
        reads_catalog(profile.operation),
    ensures
        bind_count(call_statement(profile, arguments)) == call_binds(
            profile,
            arguments,
            parameters,
        ).len(),
        profile.only_reads(),
{
    law_list_tables_placeholders(database_filter(profile, arguments), profile.max_rows);
    law_list_columns_placeholders(
        database_filter(profile, arguments),
        table_filter(profile, arguments),
        profile.max_rows,
    );
}

/// A registered binding that is held to reading runs, for whatever arguments, a
/// statement that the read-only guard has passed, and fetches what it reads.
pub proof fn law_read_only_call_runs_a_guarded_statement(
    profile: ClickHouseProfile,
    spec: ClickHouseBackendSpec,
    verdicts: ReadOnlyVerdicts,
    compiled: Seq<CompiledParam>,
    arguments: JsonView,
)
    requires
        spec_error(spec, verdicts) is None,
        profile_of(profile, spec, compiled),
        spec.operation == ClickHouseOperation::Query,
        spec.query.read_only,
    ensures
        profile.only_reads(),
        !is_blank(call_statement(profile, arguments)),
        match (spec.surface, spec.read_query) {
            (Surface::Resource, Some(sql)) => call_statement(profile, arguments) == sql@
                && verdicts.read_query is Ok,
            _ => call_statement(profile, arguments) == spec.statement@ && verdicts.statement is Ok,
        },
{
}

/// A text parameter is bound as that text, whatever it holds.
pub proof fn law_text_parameter_is_bound_verbatim(
    parameters: Seq<JsonView>,
    i: int,
    value: Seq<char>,
)
    requires
        0 <= i < parameters.len(),
        parameters[i] == JsonView::Text(value),
    ensures
        scalar_binds(parameters)[i] == BindView::Text(value),
{
}

/// A failed call is answered alike on every surface: with an envelope that holds
/// the error and no response.
pub proof fn law_failed_call_is_an_error_envelope(
    profile: ClickHouseProfile,
    backend_name: Seq<char>,
    tool_name: Seq<char>,
    message: Seq<char>,
)
    ensures
        under(failure_envelope(profile, backend_name, tool_name, message), "response"@) == Some(
            JsonView::Null,
        ),
        under(failure_envelope(profile, backend_name, tool_name, message), "downstreamError"@)
            == Some(classified(message)),
        classified(message) is Fields,
{
    law_envelope_is_answer_or_error(
        tool_name,
        backend_name,
        profile.database@,
        JsonView::Null,
        Some(classified(message)),
        Some(message),
    );
}

/// A call that was sent is audited where, and only where, it failed, and then with
/// the reason.
pub proof fn law_failed_calls_are_audited(
    profile: ClickHouseProfile,
    backend_name: Seq<char>,
    tool_name: Seq<char>,
    arguments: JsonView,
    result: Result<QueryOutcome, String>,
    duration_ms: nat,
)
    ensures
        ({
            let reply = reply_to(
                profile,
                backend_name,
                tool_name,
                arguments,
                result,
                duration_ms,
            );
            &&& reply.reason is Some <==> audit_action(reply.label) is Some
            &&& reply.reason is None <==> reply.label == "ok"@
            &&& result is Err ==> reply.reason is Some
        }),
{
    reveal_strlit("ok");
    reveal_strlit("timeout");
    reveal_strlit("transport_error");
    reveal_strlit("clickhouse_error");
    reveal_strlit("invalid_spec");
    assert("ok"@.len() == 2);
    assert("timeout"@.len() == 7);
}

/// The answer to a call tells nothing of the address, the credentials and the
/// settings of the binding: two bindings that differ in those alone answer alike.
pub proof fn law_reply_does_not_tell_credentials(
    profile: ClickHouseProfile,
    other: ClickHouseProfile,
    backend_name: Seq<char>,
    tool_name: Seq<char>,
    arguments: JsonView,
    result: Result<QueryOutcome, String>,
    duration_ms: nat,
)
    requires
        profile.database@ == other.database@,
        profile.surface == other.surface,
        string_text(profile.surface_uri) == string_text(other.surface_uri),
    ensures
        reply_to(profile, backend_name, tool_name, arguments, result, duration_ms) == reply_to(
            other,
            backend_name,
            tool_name,
            arguments,
            result,
            duration_ms,
        ),
{
}

/// A resource that has no URI to be read under is answered with an error, whatever
/// rows came back.
pub proof fn law_resource_without_uri_is_an_error(
    profile: ClickHouseProfile,
    backend_name: Seq<char>,
    tool_name: Seq<char>,
    arguments: JsonView,
    outcome: QueryOutcome,
    duration_ms: nat,
)
    requires
        profile.surface == Surface::Resource,
        profile.surface_uri is None,
        text_under(arguments, "uri"@) is None,
    ensures
        reply_to(profile, backend_name, tool_name, arguments, Ok(outcome), duration_ms).body
            == failure_envelope(profile, backend_name, tool_name, no_uri_message()),
{
}

/// What is said of a payload, or of a body, that could not be read or written holds the
/// reason in full.
pub proof fn law_reasons_are_told_in_full(reason: Seq<char>)
    ensures
        payload_error(reason) == "ClickHouse plugin payload is not valid JSON: "@ + reason,
        serialization_error(reason) == "ClickHouse plugin envelope serialization failed: "@
            + reason,
        no_uri_message()
            == "resource surface requires a `uri` (set a static `uri` on the binding or invoke via a resources/read request)"@,
{
}

/// The tool of a call is the value of the first header that names one, in any case of
/// the letters, and the binding without such a header.
pub proof fn law_first_header_names_the_tool(
    others: Seq<(String, String)>,
    header: (String, String),
    rest: Seq<(String, String)>,
    backend_name: Seq<char>,
)
    requires
        forall|i: int|
            0 <= i < others.len() ==> lowered((#[trigger] others[i]).0@) != "mcpg-tool-name"@,
        lowered(header.0@) == "mcpg-tool-name"@,
    ensures
        called_tool(others, backend_name) == backend_name,
        called_tool(others + seq![header] + rest, backend_name) == header.1@,
    decreases others.len(),
{
    reveal_strlit("mcpg-tool-name");
    assert(lowered("mcpg-tool-name"@) =~= "mcpg-tool-name"@);
    let all = others + seq![header] + rest;
    if others.len() == 0 {
        assert(all[0] == header);
    } else {
        assert(all[0] == others[0]);
        assert(lowered(others[0].0@) != "mcpg-tool-name"@);
        assert(all.skip(1) =~= others.skip(1) + seq![header] + rest);
        assert forall|i: int| 0 <= i < others.skip(1).len() implies lowered(
            (#[trigger] others.skip(1)[i]).0@,
        ) != "mcpg-tool-name"@ by {
            assert(lowered(others[i + 1].0@) != "mcpg-tool-name"@);
        }
        law_first_header_names_the_tool(others.skip(1), header, rest, backend_name);
    }
}

/// Parameters are bound one by one, in order, each as the scalar that it is; they can be
/// where, and only where, none of them is an array or an object.
pub proof fn law_parameters_are_bound_in_order(parameters: Seq<JsonView>, i: int)
    ensures
        all_scalar(parameters) <==> forall|k: int|
            0 <= k < parameters.len() ==> !((#[trigger] parameters[k]) is List)
                && !(parameters[k] is Fields),
        scalar_binds(parameters).len() == parameters.len(),
        all_scalar(parameters) && 0 <= i < parameters.len() ==> scalar_bind(parameters[i]) == Some(
            scalar_binds(parameters)[i],
        ),
{
    if all_scalar(parameters) {
        assert forall|k: int| 0 <= k < parameters.len() implies !((
        #[trigger] parameters[k]) is List) && !(parameters[k] is Fields) by {
            assert(scalar_bind(parameters[k]) is Some);
        }
        if 0 <= i < parameters.len() {
            assert(scalar_bind(parameters[i]) is Some);
        }
    }
    if forall|k: int|
        0 <= k < parameters.len() ==> !((#[trigger] parameters[k]) is List) && !(
        parameters[k] is Fields) {
        assert forall|k: int| 0 <= k < parameters.len() implies scalar_bind(
            #[trigger] parameters[k],
        ) is Some by {}
    }
}

/// Calls with different parameters bind different values.
pub proof fn law_different_parameters_are_bound_differently(a: Seq<JsonView>, b: Seq<JsonView>)
    requires
        a != b,
        all_scalar(a),
        all_scalar(b),
    ensures
        scalar_binds(a) != scalar_binds(b),
{
    if scalar_binds(a) == scalar_binds(b) {
        assert(scalar_binds(a).len() == a.len());
        assert(scalar_binds(b).len() == b.len());
        assert forall|i: int| 0 <= i < a.len() implies a[i] == b[i] by {
            assert(scalar_bind(a[i]) is Some);
            assert(scalar_bind(b[i]) is Some);
            assert(scalar_binds(a)[i] == scalar_binds(b)[i]);
            if a[i] != b[i] {
                law_different_scalars_are_bound_differently(a[i], b[i]);
            }
        }
        assert(a =~= b);
    }
}

/// A call is refused before anything is sent where, and only where, it runs a statement
/// whose parameters could not be evaluated, or are not all scalars.
pub proof fn law_when_a_call_is_refused(values: Vec<serde_json::Value>, reason: String)
    ensures
        call_error(ClickHouseOperation::Query, Err(reason)) == Some(
            "evaluating params: "@ + reason@,
        ),
        all_scalar(json_each(values@)) ==> call_error(
            ClickHouseOperation::Query,
            Ok(values),
        ) is None,
        !all_scalar(json_each(values@)) ==> call_error(ClickHouseOperation::Query, Ok(values))
            == Some("binding params: "@ + not_scalar_message()),
        forall|evaluated: Result<Vec<serde_json::Value>, String>| #[trigger]
            call_error(ClickHouseOperation::ListTables, evaluated) is None,
        forall|evaluated: Result<Vec<serde_json::Value>, String>| #[trigger]
            call_error(ClickHouseOperation::ListColumns, evaluated) is None,
        evaluated_documents(Ok(values)) == json_each(values@),
{
}

/// The filters of a call: the text under the configured argument where it says anything,
/// else the operator's text where it says anything, else none; without the white space
/// around it.
pub proof fn law_filters_of_a_call(profile: ClickHouseProfile, arguments: JsonView)
    ensures
        ({
            let filters = profile.catalog_filters;
            let given = match filters.database_arg {
                Some(name) => text_under(arguments, name@),
                None => None,
            };
            &&& given matches Some(text) ==> !is_blank(text) ==> database_filter(profile, arguments)
                == Some(trimmed(text))
            &&& given is None || is_blank(given->Some_0) ==> {
                &&& filters.database matches Some(fixed) ==> !is_blank(fixed@) ==> database_filter(
                    profile,
                    arguments,
                ) == Some(trimmed(fixed@))
                &&& filters.database is None || is_blank(filters.database->Some_0@)
                    ==> database_filter(profile, arguments) is None
            }
        }),
        ({
            let filters = profile.catalog_filters;
            let given = match filters.table_arg {
                Some(name) => text_under(arguments, name@),
                None => None,
            };
            &&& given matches Some(text) ==> !is_blank(text) ==> table_filter(profile, arguments)
                == Some(trimmed(text))
            &&& given is None || is_blank(given->Some_0) ==> {
                &&& filters.table matches Some(fixed) ==> !is_blank(fixed@) ==> table_filter(
                    profile,
                    arguments,
                ) == Some(trimmed(fixed@))
                &&& filters.table is None || is_blank(filters.table->Some_0@) ==> table_filter(
                    profile,
                    arguments,
                ) is None
            }
        }),
{
}

/// What a call runs: the operator's statement, a resource its `read_query` where it has
/// one, and a catalog operation the listing with the conditions of its filters.
pub proof fn law_what_a_call_runs(profile: ClickHouseProfile, arguments: JsonView)
    ensures
        profile.operation == ClickHouseOperation::Query ==> {
            &&& profile.surface != Surface::Resource ==> call_statement(profile, arguments)
                == profile.statement@
            &&& profile.surface == Surface::Resource && profile.read_query is None
                ==> call_statement(profile, arguments) == profile.statement@
            &&& profile.surface == Surface::Resource ==> (profile.read_query matches Some(
                sql,
            ) ==> call_statement(profile, arguments) == sql@)
        },
        profile.operation == ClickHouseOperation::ListTables ==> call_statement(profile, arguments)
            == list_tables_sql(database_filter(profile, arguments) is Some),
        profile.operation == ClickHouseOperation::ListColumns ==> call_statement(profile, arguments)
            == list_columns_sql(
            database_filter(profile, arguments) is Some,
            table_filter(profile, arguments) is Some,
        ),
{
}

/// What a call binds: a statement its parameters, in order, and a catalog operation its
/// filters, the database before the table, and then the row cap.
pub proof fn law_what_a_call_binds(
    profile: ClickHouseProfile,
    arguments: JsonView,
    parameters: Seq<JsonView>,
    database: Seq<char>,
    table: Seq<char>,
)
    ensures
        ({
            let binds = call_binds(profile, arguments, parameters);
            let cap = BindView::Int((profile.max_rows as i64) as int);
            let by_database = database_filter(profile, arguments);
            let by_table = table_filter(profile, arguments);
            &&& profile.operation == ClickHouseOperation::Query ==> binds == scalar_binds(
                parameters,
            )
            &&& profile.operation == ClickHouseOperation::ListTables ==> {
                &&& by_database is None ==> binds == seq![cap]
                &&& by_database == Some(database) ==> binds == seq![BindView::Text(database), cap]
            }
            &&& profile.operation == ClickHouseOperation::ListColumns ==> {
                &&& by_database is None && by_table is None ==> binds == seq![cap]
                &&& by_database == Some(database) && by_table is None ==> binds == seq![
                    BindView::Text(database),
                    cap,
                ]
                &&& by_database is None && by_table == Some(table) ==> binds == seq![
                    BindView::Text(table),
                    cap,
                ]
                &&& by_database == Some(database) && by_table == Some(table) ==> binds == seq![
                    BindView::Text(database),
                    BindView::Text(table),
                    cap,
                ]
            }
        }),
{
    let binds = call_binds(profile, arguments, parameters);
    let cap = BindView::Int((profile.max_rows as i64) as int);
    if reads_catalog(profile.operation) {
        if binds.len() == 1 {
            assert(binds =~= seq![cap]);
        } else if binds.len() == 2 {
            assert(binds =~= seq![binds[0], cap]);
        } else {
            assert(binds =~= seq![binds[0], binds[1], cap]);
        }
    }
}

/// An error envelope names the tool, the binding and the database, tells the message,
/// and classifies it.
pub proof fn law_error_envelope_tells_the_call(
    profile: ClickHouseProfile,
    backend_name: Seq<char>,
    tool_name: Seq<char>,
    message: Seq<char>,
)
    ensures
        ({
            let envelope = failure_envelope(profile, backend_name, tool_name, message);
            &&& under(envelope, "toolName"@) == Some(JsonView::Text(tool_name))
            &&& under(envelope, "profile"@) == Some(JsonView::Text(backend_name))
            &&& under(envelope, "request"@) matches Some(request) && under(request, "database"@)
                == Some(JsonView::Text(profile.database@))
            &&& under(envelope, "error"@) == Some(JsonView::Text(message))
            &&& under(envelope, "downstreamErrors"@) == Some(
                JsonView::List(seq![classified(message)]),
            )
        }),
{
    law_envelope_tells_what_it_is_given(
        tool_name,
        backend_name,
        profile.database@,
        JsonView::Null,
        Some(classified(message)),
        Some(message),
    );
    law_envelope_is_answer_or_error(
        tool_name,
        backend_name,
        profile.database@,
        JsonView::Null,
        Some(classified(message)),
        Some(message),
    );
}

/// A failed call is labelled by its message: a timeout where it speaks of one, in any
/// case of the letters, else trouble on the way where it may be tried again, else an
/// error of the server.
pub proof fn law_failures_are_labelled(message: Seq<char>)
    ensures
        ({
            let timed_out = occurs(lowered(message), "timed out"@) || occurs(
                lowered(message),
                "timeout"@,
            );
            &&& timed_out ==> failure_label(message) == "timeout"@
            &&& !timed_out && is_retryable(message) ==> failure_label(message)
                == "transport_error"@
            &&& !timed_out && !is_retryable(message) ==> failure_label(message)
                == "clickhouse_error"@
        }),
{
}

/// A call that brought rows is answered, as the binding's surface asks, with all of them,
/// in order: a tool with the envelope, its count, its flag and its duration; a resource
/// with its contents; a prompt with its message.
pub proof fn law_rows_are_answered_on_each_surface(
    profile: ClickHouseProfile,
    backend_name: Seq<char>,
    tool_name: Seq<char>,
    arguments: JsonView,
    outcome: QueryOutcome,
    duration_ms: nat,
)
    ensures
        ({
            let reply = reply_to(
                profile,
                backend_name,
                tool_name,
                arguments,
                Ok(outcome),
                duration_ms,
            );
            let rows = json_each(outcome.rows@);
            &&& rows.len() == outcome.rows@.len()
            &&& profile.surface == Surface::Tool ==> {
                &&& reply.label == "ok"@
                &&& reply.reason is None
                &&& under(reply.body, "toolName"@) == Some(JsonView::Text(tool_name))
                &&& under(reply.body, "profile"@) == Some(JsonView::Text(backend_name))
                &&& under(reply.body, "request"@) matches Some(request) && under(
                    request,
                    "database"@,
                ) == Some(JsonView::Text(profile.database@))
                &&& under(reply.body, "downstreamError"@) == Some(JsonView::Null)
                &&& under(reply.body, "error"@) == Some(JsonView::Null)
                &&& under(reply.body, "response"@) matches Some(response) && under(
                    response,
                    "rows"@,
                ) == Some(JsonView::List(rows)) && under(response, "count"@) == Some(
                    json_count(outcome.row_count as nat),
                ) && under(response, "truncated"@) == Some(JsonView::Bool(outcome.truncated))
                    && under(response, "durationMs"@) == Some(json_count(duration_ms))
            }
            &&& profile.surface == Surface::Prompt ==> reply.body == messages_body(rows)
                && reply.label == "ok"@ && reply.reason is None
            &&& profile.surface == Surface::Resource ==> (resource_uri(
                string_text(profile.surface_uri),
                arguments,
            ) matches Some(uri) ==> reply.body == contents_body(uri, rows) && reply.label == "ok"@
                && reply.reason is None)
        }),
{
    let response = response_member(
        Some(json_each(outcome.rows@)),
        Some(outcome.row_count as nat),
        outcome.truncated,
        duration_ms,
    );
    law_envelope_tells_what_it_is_given(
        tool_name,
        backend_name,
        profile.database@,
        response,
        None,
        None,
    );
    law_envelope_is_answer_or_error(
        tool_name,
        backend_name,
        profile.database@,
        response,
        None,
        None,
    );
    law_response_holds_the_rows(
        json_each(outcome.rows@),
        outcome.row_count as nat,
        outcome.truncated,
        duration_ms,
    );
}

/// A failed call is answered with its error envelope, its label and its message, on every
/// surface; a resource without a URI with what it lacks.
pub proof fn law_failures_are_answered_alike(
    profile: ClickHouseProfile,
    backend_name: Seq<char>,
    tool_name: Seq<char>,
    arguments: JsonView,
    outcome: QueryOutcome,
    message: String,
    duration_ms: nat,
)
    ensures
        reply_to(profile, backend_name, tool_name, arguments, Err(message), duration_ms) == (
        ReplyView {
            body: failure_envelope(profile, backend_name, tool_name, message@),
            label: failure_label(message@),
            reason: Some(message@),
        }),
        profile.surface == Surface::Resource && resource_uri(
            string_text(profile.surface_uri),
            arguments,
        ) is None ==> reply_to(
            profile,
            backend_name,
            tool_name,
            arguments,
            Ok(outcome),
            duration_ms,
        ) == (ReplyView {
            body: failure_envelope(profile, backend_name, tool_name, no_uri_message()),
            label: "clickhouse_error"@,
            reason: Some(no_uri_message()),
        }),
{
}

/// An answer is seen as what it holds.
pub proof fn law_answers_are_seen_as_they_are(reply: CallReply)
    ensures
        reply@.body == json_of(reply.body),
        reply@.label == reply.outcome_label@,
        reply@.reason == string_text(reply.audit_reason),
{
}

} // verus!
