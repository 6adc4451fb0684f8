//! The envelope in which a call is answered. A `downstreamError` that is not null
//! marks the answer as an error.
use crate::engine::{filter_text, names_of};
use crate::json::{
    boolean, copies, count, empty_object, json_count, json_each, json_empty_object, json_of, list,
    law_member_is_found, law_new_member_adds_one, no_members, null, object, put, string, under, JsonView, Members,
};
use crate::params::{open_object_schema, params_input_schema, texts};
use crate::text::{has_part, lower_chars, lowered, occurs, occurs_at};
use vstd::prelude::*;
use vstd::string::*;

verus! {

/// The error object for the `downstreamError` of an envelope.
pub open spec fn downstream_error(kind: Seq<char>, message: Seq<char>, retryable: bool) -> JsonView {
    JsonView::Fields(
        Members::none()
            .with("kind"@, JsonView::Text(kind))
            .with("code"@, JsonView::Text("mcpg.downstream_clickhouse."@ + kind))
            .with("message"@, JsonView::Text(message))
            .with("retryable"@, JsonView::Bool(retryable))
            .with("retryClass"@, JsonView::Text(
                if retryable {
                    "with_backoff"@
                } else {
                    "do_not_retry"@
                },
            ))
            .with("suggestedAction"@, JsonView::Text(
                if retryable {
                    "check_server_and_retry"@
                } else {
                    "inspect_sql_error"@
                },
            )),
    )
}

/// Builds the error object for the `downstreamError` of an envelope.
pub fn clickhouse_downstream_error(kind: &str, message: &str, retryable: bool) -> (r:
    serde_json::Value)
    ensures
        json_of(r) == downstream_error(kind@, message@, retryable),
{
    let code: String = "mcpg.downstream_clickhouse.".to_owned().concat(kind);
    let mut members = no_members();
    put(&mut members, "kind", string(kind));
    put(&mut members, "code", string(code.as_str()));
    put(&mut members, "message", string(message));
    put(&mut members, "retryable", boolean(retryable));
    put(
        &mut members,
        "retryClass",
        string(
            if retryable {
                "with_backoff"
            } else {
                "do_not_retry"
            },
        ),
    );
    put(
        &mut members,
        "suggestedAction",
        string(
            if retryable {
                "check_server_and_retry"
            } else {
                "inspect_sql_error"
            },
        ),
    );
    object(members)
}

/// Whether an error, in small letters, tells of a mistake in the statement or the
/// configuration, which no retry mends.
pub open spec fn tells_refusal(lower: Seq<char>) -> bool {
    ||| occurs(lower, "syntax error"@)
    ||| occurs(lower, "syntax_error"@)
    ||| occurs(lower, "unknown identifier"@)
    ||| occurs(lower, "unknown column"@)
    ||| occurs(lower, "unknown table"@)
    ||| occurs(lower, "unknown database"@)
    ||| occurs(lower, "type mismatch"@)
    ||| occurs(lower, "cannot parse"@)
    ||| occurs(lower, "illegal type"@)
    ||| occurs(lower, "not enough privileges"@)
    ||| occurs(lower, "access_denied"@)
    ||| occurs(lower, "access denied"@)
    ||| occurs(lower, "readonly"@)
    ||| occurs(lower, "read-only"@)
    ||| occurs(lower, "cannot_modify"@)
}

/// Whether an error, in small letters, tells of trouble on the way to the server
/// or of its load, which may pass.
pub open spec fn tells_trouble(lower: Seq<char>) -> bool {
    ||| occurs(lower, "timed out"@)
    ||| occurs(lower, "timeout"@)
    ||| occurs(lower, "connection"@)
    ||| occurs(lower, "network"@)
    ||| occurs(lower, "connect"@)
    ||| occurs(lower, "too many simultaneous"@)
    ||| occurs(lower, "memory limit"@)
    ||| occurs(lower, "socket"@)
    ||| occurs(lower, "temporarily"@)
    ||| occurs(lower, "service unavailable"@)
    ||| occurs(lower, "503"@)
    ||| occurs(lower, "502"@)
}

/// Whether a call that failed with `message` may be tried again.
pub open spec fn is_retryable(message: Seq<char>) -> bool {
    !tells_refusal(lowered(message)) && tells_trouble(lowered(message))
}

/// The kind of the error that `message` tells of.
pub open spec fn error_kind(message: Seq<char>) -> Seq<char> {
    if is_retryable(message) {
        "transport_error"@
    } else {
        "clickhouse_error"@
    }
}

/// The error object for a call that failed with `message`.
pub open spec fn classified(message: Seq<char>) -> JsonView {
    downstream_error(error_kind(message), message, is_retryable(message))
}

fn says_refusal(lower: &Vec<char>) -> (r: bool)
    ensures
        r == tells_refusal(lower@),
{
    has_part(lower, "syntax error") || has_part(lower, "syntax_error") || has_part(
        lower,
        "unknown identifier",
    ) || has_part(lower, "unknown column") || has_part(lower, "unknown table") || has_part(
        lower,
        "unknown database",
    ) || has_part(lower, "type mismatch") || has_part(lower, "cannot parse") || has_part(
        lower,
        "illegal type",
    ) || has_part(lower, "not enough privileges") || has_part(lower, "access_denied") || has_part(
        lower,
        "access denied",
    ) || has_part(lower, "readonly") || has_part(lower, "read-only") || has_part(
        lower,
        "cannot_modify",
    )
}

fn says_trouble(lower: &Vec<char>) -> (r: bool)
    ensures
        r == tells_trouble(lower@),
{
    has_part(lower, "timed out") || has_part(lower, "timeout") || has_part(lower, "connection")
        || has_part(lower, "network") || has_part(lower, "connect") || has_part(
        lower,
        "too many simultaneous",
    ) || has_part(lower, "memory limit") || has_part(lower, "socket") || has_part(
        lower,
        "temporarily",
    ) || has_part(lower, "service unavailable") || has_part(lower, "503") || has_part(lower, "502")
}

/// Whether a call that failed with `message` may be tried again.
pub fn retryable(message: &str) -> (r: bool)
    ensures
        r == is_retryable(message@),
{
    let lower = lower_chars(message);
    !says_refusal(&lower) && says_trouble(&lower)
}

/// Builds the error object for a call that failed with `message`. A mistake in
/// the statement or the configuration outweighs any sign of trouble on the way.
pub fn classify_error(message: &str) -> (r: serde_json::Value)
    ensures
        json_of(r) == classified(message@),
{
    let retry: bool = retryable(message);
    let kind: &str = if retry {
        "transport_error"
    } else {
        "clickhouse_error"
    };
    clickhouse_downstream_error(kind, message, retry)
}

/// A JSON Schema that names a type.
pub open spec fn typed(name: Seq<char>) -> JsonView {
    JsonView::Fields(Members::none().with("type"@, JsonView::Text(name)))
}

/// A type or null, as a JSON Schema names it.
pub open spec fn or_null(name: Seq<char>) -> JsonView {
    JsonView::List(seq![JsonView::Text(name), JsonView::Text("null"@)])
}

/// A JSON Schema for a type or null.
pub open spec fn nullable(name: Seq<char>) -> JsonView {
    JsonView::Fields(Members::none().with("type"@, or_null(name)))
}

/// The JSON Schema of the `request` of an envelope.
pub open spec fn request_schema() -> JsonView {
    JsonView::Fields(
        Members::none()
            .with("type"@, JsonView::Text("object"@))
            .with("properties"@, JsonView::Fields(Members::none().with("database"@, typed("string"@))))
            .with("additionalProperties"@, JsonView::Bool(true)),
    )
}

/// The JSON Schema of the `response` of an envelope whose rows are as `items`
/// says.
pub open spec fn response_schema(items: JsonView) -> JsonView {
    JsonView::Fields(
        Members::none()
            .with("type"@, or_null("object"@))
            .with("properties"@, JsonView::Fields(
                Members::none()
                    .with("rows"@, JsonView::Fields(
                        Members::none()
                            .with("type"@, or_null("array"@))
                            .with("items"@, items),
                    ))
                    .with("count"@, nullable("integer"@))
                    .with("truncated"@, typed("boolean"@))
                    .with("durationMs"@, typed("integer"@)),
            ))
            .with("additionalProperties"@, JsonView::Bool(true)),
    )
}

/// The schemas of the members of an envelope whose rows are as `items` says.
pub open spec fn envelope_properties(items: JsonView) -> Members {
    Members::none()
        .with("toolName"@, typed("string"@))
        .with("profile"@, typed("string"@))
        .with("request"@, request_schema())
        .with("response"@, response_schema(items))
        .with("downstreamError"@, nullable("object"@))
        .with("downstreamErrors"@, JsonView::Fields(
            Members::none()
                .with("type"@, JsonView::Text("array"@))
                .with("items"@, json_empty_object()),
        ))
        .with("error"@, nullable("string"@))
}

/// The JSON Schema of an envelope whose rows are as `items` says.
pub open spec fn envelope_schema(items: JsonView) -> JsonView {
    JsonView::Fields(
        Members::none()
            .with("$schema"@, JsonView::Text("https://json-schema.org/draft/2020-12/schema"@))
            .with("type"@, JsonView::Text("object"@))
            .with("properties"@, JsonView::Fields(envelope_properties(items)))
            .with("additionalProperties"@, JsonView::Bool(true)),
    )
}

fn typed_schema(name: &str) -> (r: serde_json::Value)
    ensures
        json_of(r) == typed(name@),
{
    let mut members = no_members();
    put(&mut members, "type", string(name));
    object(members)
}

fn or_null_types(name: &str) -> (r: serde_json::Value)
    ensures
        json_of(r) == or_null(name@),
{
    let mut items: Vec<serde_json::Value> = Vec::new();
    items.push(string(name));
    items.push(string("null"));
    assert(json_each(items@) =~= seq![JsonView::Text(name@), JsonView::Text("null"@)]);
    list(items)
}

fn nullable_schema(name: &str) -> (r: serde_json::Value)
    ensures
        json_of(r) == nullable(name@),
{
    let mut members = no_members();
    put(&mut members, "type", or_null_types(name));
    object(members)
}

fn build_request_schema() -> (r: serde_json::Value)
    ensures
        json_of(r) == request_schema(),
{
    let mut properties = no_members();
    put(&mut properties, "database", typed_schema("string"));
    let mut members = no_members();
    put(&mut members, "type", string("object"));
    put(&mut members, "properties", object(properties));
    put(&mut members, "additionalProperties", boolean(true));
    object(members)
}

fn build_response_schema(items: serde_json::Value) -> (r: serde_json::Value)
    ensures
        json_of(r) == response_schema(json_of(items)),
{
    let mut rows = no_members();
    put(&mut rows, "type", or_null_types("array"));
    put(&mut rows, "items", items);
    let mut properties = no_members();
    put(&mut properties, "rows", object(rows));
    put(&mut properties, "count", nullable_schema("integer"));
    put(&mut properties, "truncated", typed_schema("boolean"));
    put(&mut properties, "durationMs", typed_schema("integer"));
    let mut members = no_members();
    put(&mut members, "type", or_null_types("object"));
    put(&mut members, "properties", object(properties));
    put(&mut members, "additionalProperties", boolean(true));
    object(members)
}

fn build_envelope_schema(items: serde_json::Value) -> (r: serde_json::Value)
    ensures
        json_of(r) == envelope_schema(json_of(items)),
{
    let mut errors = no_members();
    put(&mut errors, "type", string("array"));
    put(&mut errors, "items", empty_object());
    let mut properties = no_members();
    put(&mut properties, "toolName", typed_schema("string"));
    put(&mut properties, "profile", typed_schema("string"));
    put(&mut properties, "request", build_request_schema());
    put(&mut properties, "response", build_response_schema(items));
    put(&mut properties, "downstreamError", nullable_schema("object"));
    put(&mut properties, "downstreamErrors", object(errors));
    put(&mut properties, "error", nullable_schema("string"));
    let mut members = no_members();
    put(&mut members, "$schema", string("https://json-schema.org/draft/2020-12/schema"));
    put(&mut members, "type", string("object"));
    put(&mut members, "properties", object(properties));
    put(&mut members, "additionalProperties", boolean(true));
    object(members)
}

/// Builds the JSON Schema of an envelope, its rows of any shape.
pub fn result_envelope_schema() -> (r: serde_json::Value)
    ensures
        json_of(r) == envelope_schema(json_empty_object()),
{
    build_envelope_schema(empty_object())
}

/// Builds the JSON Schema of an envelope whose rows are objects with the given
/// columns, among others.
pub fn catalog_envelope_schema(columns: &[&str]) -> (r: serde_json::Value)
    ensures
        json_of(r) == envelope_schema(open_object_schema(names_of(columns@))),
{
    let mut names: Vec<String> = Vec::new();
    let n: usize = columns.len();
    for i in 0..n
        invariant
            n == columns@.len(),
            texts(names@) == names_of(columns@.take(i as int)),
    {
        let ghost earlier = names@;
        let column: &str = columns[i];
        let name: String = column.to_owned();
        names.push(name);
        proof {
            assert(texts(names@) =~= texts(earlier).push(column@));
            assert(names_of(columns@.take(i + 1)) =~= names_of(columns@.take(i as int)).push(
                column@,
            ));
        }
    }
    assert(columns@.take(n as int) =~= columns@);
    build_envelope_schema(params_input_schema(names.as_slice()))
}

/// The documents of optional rows.
pub open spec fn rows_view(rows: Option<&[serde_json::Value]>) -> Option<Seq<JsonView>> {
    match rows {
        Some(values) => Some(json_each(values@)),
        None => None,
    }
}

/// The `response` of an envelope for a call that did not fail.
pub open spec fn response_member(
    rows: Option<Seq<JsonView>>,
    row_count: Option<nat>,
    truncated: bool,
    duration_ms: nat,
) -> JsonView {
    JsonView::Fields(
        Members::none()
            .with("rows"@, match rows {
                Some(documents) => JsonView::List(documents),
                None => JsonView::Null,
            })
            .with("count"@, match row_count {
                Some(n) => json_count(n),
                None => match rows {
                    Some(documents) => json_count(documents.len()),
                    None => JsonView::Null,
                },
            })
            .with("truncated"@, JsonView::Bool(truncated))
            .with("durationMs"@, json_count(duration_ms)),
    )
}

/// The members of an envelope.
pub open spec fn envelope_members(
    tool_name: Seq<char>,
    profile_name: Seq<char>,
    database: Seq<char>,
    response: JsonView,
    downstream: Option<JsonView>,
    error: Option<Seq<char>>,
) -> Members {
    Members::none()
        .with("toolName"@, JsonView::Text(tool_name))
        .with("profile"@, JsonView::Text(profile_name))
        .with("request"@, JsonView::Fields(Members::none().with("database"@, JsonView::Text(database))))
        .with("response"@, match downstream {
            Some(_) => JsonView::Null,
            None => response,
        })
        .with("downstreamError"@, match downstream {
            Some(document) => document,
            None => JsonView::Null,
        })
        .with("downstreamErrors"@, JsonView::List(
            match downstream {
                Some(document) => seq![document],
                None => Seq::empty(),
            },
        ))
        .with("error"@, match error {
            Some(message) => JsonView::Text(message),
            None => JsonView::Null,
        })
}

/// The document of an optional value.
pub open spec fn optional_json(value: Option<&serde_json::Value>) -> Option<JsonView> {
    match value {
        Some(v) => Some(json_of(*v)),
        None => None,
    }
}

/// Builds the envelope in which a call is answered. The duration must fit the 64
/// bits that a JSON integer is held in, where it is part of the answer.
pub fn build_result_envelope(
    tool_name: &str,
    profile_name: &str,
    database: &str,
    rows: Option<&[serde_json::Value]>,
    row_count: Option<usize>,
    truncated: bool,
    duration_ms: u128,
    downstream_error: Option<&serde_json::Value>,
    error: Option<&str>,
) -> (r: serde_json::Value)
    requires
        downstream_error is None ==> duration_ms <= u64::MAX,
    ensures
        json_of(r) == JsonView::Fields(
            envelope_members(
                tool_name@,
                profile_name@,
                database@,
                response_member(
                    rows_view(rows),
                    match row_count {
                        Some(n) => Some(n as nat),
                        None => None,
                    },
                    truncated,
                    duration_ms as nat,
                ),
                optional_json(downstream_error),
                filter_text(error),
            ),
        ),
{
    let response: serde_json::Value = match downstream_error {
        Some(_) => null(),
        None => {
            let mut members = no_members();
            let held: serde_json::Value = match rows {
                Some(values) => list(copies(values)),
                None => null(),
            };
            put(&mut members, "rows", held);
            let counted: serde_json::Value = match row_count {
                Some(n) => count(n as u64),
                None => match rows {
                    Some(values) => count(values.len() as u64),
                    None => null(),
                },
            };
            put(&mut members, "count", counted);
            put(&mut members, "truncated", boolean(truncated));
            put(&mut members, "durationMs", count(duration_ms as u64));
            object(members)
        },
    };
    let mut request = no_members();
    put(&mut request, "database", string(database));
    let mut errors: Vec<serde_json::Value> = Vec::new();
    let downstream: serde_json::Value = match downstream_error {
        Some(value) => {
            errors.push(value.clone());
            value.clone()
        },
        None => null(),
    };
    assert(json_each(errors@) =~= (match optional_json(downstream_error) {
        Some(document) => seq![document],
        None => Seq::empty(),
    }));
    let said: serde_json::Value = match error {
        Some(message) => string(message),
        None => null(),
    };
    let mut members = no_members();
    put(&mut members, "toolName", string(tool_name));
    put(&mut members, "profile", string(profile_name));
    put(&mut members, "request", object(request));
    put(&mut members, "response", response);
    put(&mut members, "downstreamError", downstream);
    put(&mut members, "downstreamErrors", list(errors));
    put(&mut members, "error", said);
    object(members)
}

/// A mistake in the statement or the configuration outweighs every sign of trouble
/// on the way: such a call is never to be tried again.
pub proof fn law_refusal_outweighs_trouble(message: Seq<char>)
    requires
        tells_refusal(lowered(message)),
    ensures
        !is_retryable(message),
        error_kind(message) == "clickhouse_error"@,
{
}

/// The kind of an error says whether it may be tried again, and its other words go
/// with its kind.
pub proof fn law_kind_tells_retryability(message: Seq<char>)
    ensures
        classified(message) is Fields,
        error_kind(message) == "transport_error"@ <==> is_retryable(message),
        under(classified(message), "kind"@) == Some(JsonView::Text(error_kind(message))),
        under(classified(message), "code"@) == Some(
            JsonView::Text("mcpg.downstream_clickhouse."@ + error_kind(message)),
        ),
        under(classified(message), "message"@) == Some(JsonView::Text(message)),
        under(classified(message), "retryable"@) == Some(JsonView::Bool(is_retryable(message))),
{
    reveal_strlit("kind");
    reveal_strlit("code");
    reveal_strlit("message");
    reveal_strlit("retryable");
    reveal_strlit("retryClass");
    reveal_strlit("suggestedAction");
    reveal_strlit("transport_error");
    reveal_strlit("clickhouse_error");
    assert("transport_error"@.len() != "clickhouse_error"@.len());
    assert("code"@[0] != "kind"@[0]);
    assert("message"@.len() == 7);
    assert("retryable"@.len() == 9);
    assert("retryClass"@.len() == 10);
    assert("suggestedAction"@.len() == 15);
    broadcast use law_member_is_found;

}

/// The names of an envelope's members.
proof fn lemma_member_names_differ()
    ensures
        "toolName"@ != "profile"@,
        "toolName"@ != "request"@,
        "toolName"@ != "response"@,
        "toolName"@ != "downstreamError"@,
        "toolName"@ != "downstreamErrors"@,
        "toolName"@ != "error"@,
        "profile"@ != "request"@,
        "profile"@ != "response"@,
        "profile"@ != "downstreamError"@,
        "profile"@ != "downstreamErrors"@,
        "profile"@ != "error"@,
        "request"@ != "response"@,
        "request"@ != "downstreamError"@,
        "request"@ != "downstreamErrors"@,
        "request"@ != "error"@,
        "response"@ != "downstreamError"@,
        "response"@ != "downstreamErrors"@,
        "response"@ != "error"@,
        "downstreamError"@ != "downstreamErrors"@,
        "downstreamError"@ != "error"@,
        "downstreamErrors"@ != "error"@,
{
    reveal_strlit("toolName");
    reveal_strlit("profile");
    reveal_strlit("request");
    reveal_strlit("response");
    reveal_strlit("downstreamError");
    reveal_strlit("downstreamErrors");
    reveal_strlit("error");
    assert("toolName"@[0] == 't');
    assert("profile"@[0] == 'p');
    assert("request"@[2] == 'q');
    assert("response"@[2] == 's');
    assert("downstreamError"@.len() == 15);
    assert("downstreamErrors"@.len() == 16);
}

/// An envelope tells of an error in all its members or in none: with a downstream
/// error there is no response and the error stands in the list, without one there
/// is a response and the list is empty.
pub proof fn law_envelope_is_answer_or_error(
    tool_name: Seq<char>,
    profile_name: Seq<char>,
    database: Seq<char>,
    response: JsonView,
    downstream: Option<JsonView>,
    error: Option<Seq<char>>,
)
    ensures
        ({
            let members = envelope_members(
                tool_name,
                profile_name,
                database,
                response,
                downstream,
                error,
            );
            match downstream {
                Some(document) => {
                    &&& members.get("response"@) == Some(JsonView::Null)
                    &&& members.get("downstreamError"@) == Some(document)
                    &&& members.get("downstreamErrors"@) == Some(JsonView::List(seq![document]))
                },
                None => {
                    &&& members.get("response"@) == Some(response)
                    &&& members.get("downstreamError"@) == Some(JsonView::Null)
                    &&& members.get("downstreamErrors"@) == Some(JsonView::List(Seq::empty()))
                },
            }
        }),
{
    broadcast use law_member_is_found;

    lemma_member_names_differ();
}

/// Every member of an envelope is described in its schema, whatever the schema says
/// of the rows.
pub proof fn law_schema_describes_every_member(
    tool_name: Seq<char>,
    profile_name: Seq<char>,
    database: Seq<char>,
    response: JsonView,
    downstream: Option<JsonView>,
    error: Option<Seq<char>>,
    items: JsonView,
    name: Seq<char>,
)
    ensures
        envelope_members(tool_name, profile_name, database, response, downstream, error).has(name)
            == envelope_properties(items).has(name),
{
    broadcast use law_member_is_found;

}

/// A call may be tried again where, and only where, its message holds one of the signs
/// of trouble, in any case of the letters, and none of the signs of a mistake; the
/// length of the message and what else stands in it are of no account.
pub proof fn law_signs_decide_retryability(message: Seq<char>)
    ensures
        ({
            let mistakes = seq![
                "syntax error"@,
                "syntax_error"@,
                "unknown identifier"@,
                "unknown column"@,
                "unknown table"@,
                "unknown database"@,
                "type mismatch"@,
                "cannot parse"@,
                "illegal type"@,
                "not enough privileges"@,
                "access_denied"@,
                "access denied"@,
                "readonly"@,
                "read-only"@,
                "cannot_modify"@,
            ];
            let troubles = seq![
                "timed out"@,
                "timeout"@,
                "connection"@,
                "network"@,
                "connect"@,
                "too many simultaneous"@,
                "memory limit"@,
                "socket"@,
                "temporarily"@,
                "service unavailable"@,
                "503"@,
                "502"@,
            ];
            is_retryable(message) <==> {
                &&& exists|i: int|
                    0 <= i < troubles.len() && occurs(lowered(message), #[trigger] troubles[i])
                &&& forall|i: int|
                    0 <= i < mistakes.len() ==> !occurs(lowered(message), #[trigger] mistakes[i])
            }
        }),
{
    let mistakes = seq![
        "syntax error"@,
        "syntax_error"@,
        "unknown identifier"@,
        "unknown column"@,
        "unknown table"@,
        "unknown database"@,
        "type mismatch"@,
        "cannot parse"@,
        "illegal type"@,
        "not enough privileges"@,
        "access_denied"@,
        "access denied"@,
        "readonly"@,
        "read-only"@,
        "cannot_modify"@,
    ];
    let troubles = seq![
        "timed out"@,
        "timeout"@,
        "connection"@,
        "network"@,
        "connect"@,
        "too many simultaneous"@,
        "memory limit"@,
        "socket"@,
        "temporarily"@,
        "service unavailable"@,
        "503"@,
        "502"@,
    ];
    let lower = lowered(message);
    assert(mistakes[0] == "syntax error"@);
    assert(mistakes[1] == "syntax_error"@);
    assert(mistakes[2] == "unknown identifier"@);
    assert(mistakes[3] == "unknown column"@);
    assert(mistakes[4] == "unknown table"@);
    assert(mistakes[5] == "unknown database"@);
    assert(mistakes[6] == "type mismatch"@);
    assert(mistakes[7] == "cannot parse"@);
    assert(mistakes[8] == "illegal type"@);
    assert(mistakes[9] == "not enough privileges"@);
    assert(mistakes[10] == "access_denied"@);
    assert(mistakes[11] == "access denied"@);
    assert(mistakes[12] == "readonly"@);
    assert(mistakes[13] == "read-only"@);
    assert(mistakes[14] == "cannot_modify"@);
    assert(troubles[0] == "timed out"@);
    assert(troubles[1] == "timeout"@);
    assert(troubles[2] == "connection"@);
    assert(troubles[3] == "network"@);
    assert(troubles[4] == "connect"@);
    assert(troubles[5] == "too many simultaneous"@);
    assert(troubles[6] == "memory limit"@);
    assert(troubles[7] == "socket"@);
    assert(troubles[8] == "temporarily"@);
    assert(troubles[9] == "service unavailable"@);
    assert(troubles[10] == "503"@);
    assert(troubles[11] == "502"@);
    if tells_trouble(lower) {
        assert(exists|i: int| 0 <= i < troubles.len() && occurs(lower, #[trigger] troubles[i]));
    }
}

/// A sign counts wherever it stands in a message.
pub proof fn law_sign_counts_anywhere(head: Seq<char>, tail: Seq<char>)
    ensures
        !is_retryable(head + "syntax error"@ + tail),
        !is_retryable(head + "readonly"@ + tail),
        is_retryable(head + "timed out"@ + tail) || tells_refusal(
            lowered(head + "timed out"@ + tail),
        ),
        is_retryable(head + "connection"@ + tail) || tells_refusal(
            lowered(head + "connection"@ + tail),
        ),
{
    reveal_strlit("syntax error");
    reveal_strlit("readonly");
    reveal_strlit("timed out");
    reveal_strlit("connection");
    lemma_small_part_stands(head, "syntax error"@, tail);
    lemma_small_part_stands(head, "readonly"@, tail);
    lemma_small_part_stands(head, "timed out"@, tail);
    lemma_small_part_stands(head, "connection"@, tail);
}

proof fn lemma_small_part_stands(head: Seq<char>, part: Seq<char>, tail: Seq<char>)
    requires
        forall|i: int| 0 <= i < part.len() ==> !('A' <= #[trigger] part[i] <= 'Z'),
    ensures
        occurs(lowered(head + part + tail), part),
{
    let whole = lowered(head + part + tail);
    assert(whole.subrange(head.len() as int, (head.len() + part.len()) as int) =~= part);
    assert(occurs_at(whole, part, head.len() as int));
}

/// The words for a retry go with the verdict, whatever the message is.
pub proof fn law_retry_words_go_with_the_verdict(kind: Seq<char>, message: Seq<char>)
    ensures
        under(downstream_error(kind, message, true), "retryClass"@) == Some(
            JsonView::Text("with_backoff"@),
        ),
        under(downstream_error(kind, message, false), "retryClass"@) == Some(
            JsonView::Text("do_not_retry"@),
        ),
        under(downstream_error(kind, message, true), "suggestedAction"@) == Some(
            JsonView::Text("check_server_and_retry"@),
        ),
        under(downstream_error(kind, message, false), "suggestedAction"@) == Some(
            JsonView::Text("inspect_sql_error"@),
        ),
        forall|retry: bool| #[trigger]
            under(downstream_error(kind, message, retry), "kind"@) == Some(JsonView::Text(kind)),
        forall|retry: bool| #[trigger]
            under(downstream_error(kind, message, retry), "code"@) == Some(
                JsonView::Text("mcpg.downstream_clickhouse."@ + kind),
            ),
        forall|retry: bool| #[trigger]
            under(downstream_error(kind, message, retry), "message"@) == Some(
                JsonView::Text(message),
            ),
        forall|retry: bool| #[trigger]
            under(downstream_error(kind, message, retry), "retryable"@) == Some(
                JsonView::Bool(retry),
            ),
{
    reveal_strlit("kind");
    reveal_strlit("code");
    reveal_strlit("message");
    reveal_strlit("retryable");
    reveal_strlit("retryClass");
    reveal_strlit("suggestedAction");
    assert("code"@[0] != "kind"@[0]);
    assert("message"@.len() == 7);
    assert("retryable"@.len() == 9);
    assert("retryClass"@.len() == 10);
    assert("suggestedAction"@.len() == 15);
    broadcast use law_member_is_found;

}

/// The kind of an error is `transport_error` for one that may be tried again, else
/// `clickhouse_error`, and its object is made of that kind, the message and the
/// verdict.
pub proof fn law_errors_are_classified(message: Seq<char>)
    ensures
        is_retryable(message) ==> error_kind(message) == "transport_error"@,
        !is_retryable(message) ==> error_kind(message) == "clickhouse_error"@,
        classified(message) == downstream_error(
            error_kind(message),
            message,
            is_retryable(message),
        ),
{
}

/// An envelope names the tool, the binding and the database, and tells the error, as
/// they are given.
pub proof fn law_envelope_tells_what_it_is_given(
    tool_name: Seq<char>,
    profile_name: Seq<char>,
    database: Seq<char>,
    response: JsonView,
    downstream: Option<JsonView>,
    error: Option<Seq<char>>,
)
    ensures
        ({
            let members = envelope_members(
                tool_name,
                profile_name,
                database,
                response,
                downstream,
                error,
            );
            &&& members.get("toolName"@) == Some(JsonView::Text(tool_name))
            &&& members.get("profile"@) == Some(JsonView::Text(profile_name))
            &&& members.get("request"@) matches Some(request) && under(request, "database"@)
                == Some(JsonView::Text(database))
            &&& error matches Some(message) ==> members.get("error"@) == Some(
                JsonView::Text(message),
            )
            &&& error is None ==> members.get("error"@) == Some(JsonView::Null)
        }),
{
    broadcast use law_member_is_found;

    lemma_member_names_differ();
}

/// A response holds the rows as they are, how many there were, whether some were cut
/// off, and how long it took; without a count, the rows are counted.
pub proof fn law_response_holds_the_rows(
    rows: Seq<JsonView>,
    row_count: nat,
    truncated: bool,
    duration_ms: nat,
)
    ensures
        ({
            let response = response_member(Some(rows), Some(row_count), truncated, duration_ms);
            &&& under(response, "rows"@) == Some(JsonView::List(rows))
            &&& under(response, "count"@) == Some(json_count(row_count))
            &&& under(response, "truncated"@) == Some(JsonView::Bool(truncated))
            &&& under(response, "durationMs"@) == Some(json_count(duration_ms))
        }),
        under(response_member(Some(rows), None, truncated, duration_ms), "count"@) == Some(
            json_count(rows.len()),
        ),
        under(response_member(None, None, truncated, duration_ms), "rows"@) == Some(JsonView::Null),
        under(response_member(None, None, truncated, duration_ms), "count"@) == Some(
            JsonView::Null,
        ),
{
    reveal_strlit("rows");
    reveal_strlit("count");
    reveal_strlit("truncated");
    reveal_strlit("durationMs");
    assert("rows"@.len() == 4);
    assert("count"@.len() == 5);
    assert("truncated"@.len() == 9);
    assert("durationMs"@.len() == 10);
    broadcast use law_member_is_found;

}

/// Rows that are given are seen as their documents, in order, and a document as
/// itself.
pub proof fn law_given_rows_are_seen(rows: &[serde_json::Value], value: &serde_json::Value, i: int)
    ensures
        rows_view(Some(rows)) matches Some(documents) && documents.len() == rows@.len() && (0 <= i
            < rows@.len() ==> documents[i] == json_of(rows@[i])),
        rows_view(None) is None,
        optional_json(Some(value)) == Some(json_of(*value)),
        optional_json(None) is None,
{
}

/// The schema of an envelope is that of an open object: each member has its type, the
/// error and the response may be null, and the rows are as `items` says.
pub proof fn law_schema_types_every_member(items: JsonView)
    ensures
        under(envelope_schema(items), "type"@) == Some(JsonView::Text("object"@)),
        under(envelope_schema(items), "additionalProperties"@) == Some(JsonView::Bool(true)),
        under(envelope_schema(items), "properties"@) == Some(
            JsonView::Fields(envelope_properties(items)),
        ),
        envelope_properties(items).get("toolName"@) == Some(typed("string"@)),
        envelope_properties(items).get("profile"@) == Some(typed("string"@)),
        envelope_properties(items).get("request"@) == Some(request_schema()),
        envelope_properties(items).get("response"@) == Some(response_schema(items)),
        envelope_properties(items).get("downstreamError"@) == Some(nullable("object"@)),
        envelope_properties(items).get("downstreamErrors"@) matches Some(errors) && under(
            errors,
            "type"@,
        ) == Some(JsonView::Text("array"@)),
        envelope_properties(items).get("error"@) == Some(nullable("string"@)),
{
    reveal_strlit("$schema");
    reveal_strlit("type");
    reveal_strlit("items");
    reveal_strlit("properties");
    reveal_strlit("additionalProperties");
    assert("$schema"@.len() == 7);
    assert("type"@.len() == 4);
    assert("items"@.len() == 5);
    assert("properties"@.len() == 10);
    assert("additionalProperties"@.len() == 20);
    lemma_member_names_differ();
    broadcast use law_member_is_found;

}

/// The schema of a response: its rows are an array, or null, of what `items` says, its
/// count an integer or null, its flag a truth value, its duration an integer.
pub proof fn law_response_schema_types_the_rows(items: JsonView)
    ensures
        under(response_schema(items), "type"@) == Some(or_null("object"@)),
        under(response_schema(items), "properties"@) matches Some(properties) && (under(
            properties,
            "rows"@,
        ) matches Some(rows) && under(rows, "type"@) == Some(or_null("array"@)) && under(
            rows,
            "items"@,
        ) == Some(items)) && under(properties, "count"@) == Some(nullable("integer"@)) && under(
            properties,
            "truncated"@,
        ) == Some(typed("boolean"@)) && under(properties, "durationMs"@) == Some(
            typed("integer"@),
        ),
        under(request_schema(), "properties"@) matches Some(properties) && under(
            properties,
            "database"@,
        ) == Some(typed("string"@)),
{
    reveal_strlit("type");
    reveal_strlit("items");
    reveal_strlit("properties");
    reveal_strlit("additionalProperties");
    reveal_strlit("rows");
    reveal_strlit("count");
    reveal_strlit("truncated");
    reveal_strlit("durationMs");
    assert("type"@.len() == 4);
    assert("items"@.len() == 5);
    assert("properties"@.len() == 10);
    assert("additionalProperties"@.len() == 20);
    assert("rows"@.len() == 4);
    assert("count"@.len() == 5);
    assert("truncated"@.len() == 9);
    assert("durationMs"@.len() == 10);
    broadcast use law_member_is_found;

}

/// A schema that names a type names that type, and one for a type or null names both.
pub proof fn law_types_are_named(name: Seq<char>)
    ensures
        under(typed(name), "type"@) == Some(JsonView::Text(name)),
        under(nullable(name), "type"@) == Some(or_null(name)),
        or_null(name) == JsonView::List(seq![JsonView::Text(name), JsonView::Text("null"@)]),
{
    broadcast use law_member_is_found;

}

/// Envelopes, error objects and schemas hold nothing but the members that are told of
/// them, so that nothing else is answered and nothing else is asked.
pub proof fn law_answers_hold_nothing_else(
    tool_name: Seq<char>,
    profile_name: Seq<char>,
    database: Seq<char>,
    response: JsonView,
    downstream: Option<JsonView>,
    error: Option<Seq<char>>,
    items: JsonView,
)
    ensures
        ({
            let members = envelope_members(
                tool_name,
                profile_name,
                database,
                response,
                downstream,
                error,
            );
            &&& members.pairs.len() == 7
            &&& members.get("request"@) matches Some(JsonView::Fields(request))
                && request.pairs.len() == 1
        }),
        envelope_properties(items).pairs.len() == 7,
        envelope_schema(items) matches JsonView::Fields(schema) && schema.pairs.len() == 4,
        under(envelope_schema(items), "$schema"@) == Some(
            JsonView::Text("https://json-schema.org/draft/2020-12/schema"@),
        ),
        envelope_properties(items).get("downstreamErrors"@) matches Some(errors) && under(
            errors,
            "items"@,
        ) == Some(JsonView::Fields(Members { pairs: Seq::empty() })) && (errors matches
            JsonView::Fields(members) && members.pairs.len() == 2),
{
    reveal_strlit("$schema");
    reveal_strlit("type");
    reveal_strlit("items");
    reveal_strlit("properties");
    reveal_strlit("additionalProperties");
    assert("$schema"@.len() == 7);
    assert("type"@.len() == 4);
    assert("items"@.len() == 5);
    assert("properties"@.len() == 10);
    assert("additionalProperties"@.len() == 20);
    lemma_member_names_differ();
    broadcast use {law_member_is_found, law_new_member_adds_one};

}

/// The parts of envelopes and schemas hold nothing but the members that are told of
/// them.
pub proof fn law_parts_hold_nothing_else(
    kind: Seq<char>,
    message: Seq<char>,
    retry: bool,
    rows: Option<Seq<JsonView>>,
    row_count: Option<nat>,
    truncated: bool,
    duration_ms: nat,
    items: JsonView,
)
    ensures
        downstream_error(kind, message, retry) matches JsonView::Fields(members)
            && members.pairs.len() == 6,
        response_member(rows, row_count, truncated, duration_ms) matches JsonView::Fields(members)
            && members.pairs.len() == 4,
        row_count matches Some(n) ==> under(
            response_member(rows, row_count, truncated, duration_ms),
            "count"@,
        ) == Some(json_count(n)),
        response_schema(items) matches JsonView::Fields(members) && members.pairs.len() == 3,
        under(response_schema(items), "additionalProperties"@) == Some(JsonView::Bool(true)),
        under(response_schema(items), "properties"@) matches Some(JsonView::Fields(properties))
            && properties.pairs.len() == 4,
        request_schema() matches JsonView::Fields(members) && members.pairs.len() == 3,
        under(request_schema(), "type"@) == Some(JsonView::Text("object"@)),
        under(request_schema(), "additionalProperties"@) == Some(JsonView::Bool(true)),
        typed(kind) matches JsonView::Fields(members) && members.pairs.len() == 1,
        nullable(kind) matches JsonView::Fields(members) && members.pairs.len() == 1,
{
    reveal_strlit("kind");
    reveal_strlit("code");
    reveal_strlit("message");
    reveal_strlit("retryable");
    reveal_strlit("retryClass");
    reveal_strlit("suggestedAction");
    assert("code"@[0] != "kind"@[0]);
    assert("message"@.len() == 7);
    assert("retryable"@.len() == 9);
    assert("retryClass"@.len() == 10);
    assert("suggestedAction"@.len() == 15);
    reveal_strlit("type");
    reveal_strlit("properties");
    reveal_strlit("additionalProperties");
    reveal_strlit("rows");
    reveal_strlit("count");
    reveal_strlit("truncated");
    reveal_strlit("durationMs");
    assert("type"@.len() == 4);
    assert("properties"@.len() == 10);
    assert("additionalProperties"@.len() == 20);
    assert("rows"@.len() == 4);
    assert("count"@.len() == 5);
    assert("truncated"@.len() == 9);
    assert("durationMs"@.len() == 10);
    broadcast use {law_member_is_found, law_new_member_adds_one};

}

} // verus!
