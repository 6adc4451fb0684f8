//! What a binding must meet to be registered, and the profile that it is
//! registered as.
use crate::driver::{client_of, query_of, query_with_option, QueryView};
use crate::engine::{
    binding_client, budget_seconds, build_client, filter_text, law_operator_settings_win,
    lemma_each_setting_stands, prepare_query, request_view, setting_of, setting_texts,
    PreparedQuery,
};
use crate::json::{json_of, member_text, text_under, JsonView};
use crate::params::{bind_views, first_seen, push_new, texts, BindView, ChBind, CompiledParam};
use crate::surface::{surface_word, Surface};
use crate::text::{
    before, blank, contains, decimal_text, is_blank, lemma_before_irreflexive, occurs,
};
use crate::types::{
    bind_count, completion_error, completion_names, list_query_error, names_ascend, reads_catalog,
    setting_names, text_or_empty, validate_completion, validate_list_query, verdict_is,
    ClickHouseAuth, ClickHouseBackendSpec, ClickHouseOperation, CompletionConfig, ListQueryConfig,
};
use vstd::prelude::*;
use vstd::string::*;

verus! {

/// What the read-only guard says of the operator-fixed statements of a binding.
#[derive(Debug)]
pub struct ReadOnlyVerdicts {
    /// Of `statement`.
    pub statement: Result<(), String>,
    /// Of `read_query`; of no account where there is none.
    pub read_query: Result<(), String>,
    /// Of the statement of `list_query`; of no account where there is none.
    pub list_query: Result<(), String>,
    /// Of the statement of each of `variable_completions`, in order.
    pub completions: Vec<Result<(), String>>,
}

/// What a check refused, if it did.
pub open spec fn verdict_error(verdict: Result<(), String>) -> Option<Seq<char>> {
    match verdict {
        Ok(_) => None,
        Err(message) => Some(message@),
    }
}

/// The first of two errors.
pub open spec fn either(first: Option<Seq<char>>, second: Option<Seq<char>>) -> Option<Seq<char>> {
    match first {
        Some(message) => Some(message),
        None => second,
    }
}

/// `message` as an error where `wrong` holds.
pub open spec fn error_if(wrong: bool, message: Seq<char>) -> Option<Seq<char>> {
    if wrong {
        Some(message)
    } else {
        None
    }
}

/// Whether there is no text but white space in an optional setting.
pub open spec fn is_unset(value: Option<String>) -> bool {
    is_blank(text_or_empty(value))
}

/// Why an operator-fixed text is refused for a bare secret reference.
pub open spec fn cred_error(field: Seq<char>, value: Seq<char>) -> Option<Seq<char>> {
    error_if(
        occurs(value, "cred://"@),
        field
            + " must not contain a bare cred:// URI — use ${cred://…} (resolved at config load)"@,
    )
}

/// Refuses a bare `cred://` in an operator-fixed text, which would be sent to the
/// server as it stands.
pub fn reject_bare_cred(field: &str, value: &str) -> (r: Result<(), String>)
    ensures
        verdict_is(r, cred_error(field@, value@)),
{
    if contains(value, "cred://") {
        return Err(
            field.to_owned().concat(
                " must not contain a bare cred:// URI — use ${cred://…} (resolved at config load)",
            ),
        );
    }
    Ok(())
}

/// Why the operation of a binding lacks what it needs.
pub open spec fn operation_error(spec: ClickHouseBackendSpec) -> Option<Seq<char>> {
    match spec.operation {
        ClickHouseOperation::Query => error_if(
            is_blank(spec.statement@) && is_unset(spec.read_query),
            "statement must not be empty (or set `read_query` for a resource_template read binding)"@,
        ),
        ClickHouseOperation::ListColumns => error_if(
            is_unset(spec.catalog_table) && is_unset(spec.catalog_table_arg),
            "operation: list_columns requires a `catalog_table` filter or a `catalog_table_arg` (the table whose columns to list)"@,
        ),
        ClickHouseOperation::ListTables => None,
    }
}

/// Why the bounds or the TLS settings of a binding are refused.
pub open spec fn bounds_error(spec: ClickHouseBackendSpec) -> Option<Seq<char>> {
    either(
        error_if(
            spec.query.max_execution_time_ms == 0,
            "query.max_execution_time_ms must be greater than 0"@,
        ),
        either(
            error_if(
                spec.query.max_result_rows == 0,
                "query.max_result_rows must be greater than 0"@,
            ),
            error_if(
                !spec.tls.verify_peer,
                "clickhouse tls.verify_peer=false is not supported; configure a trusted CA instead"@,
            ),
        ),
    )
}

/// Why the statement of a binding is refused.
pub open spec fn statement_error(spec: ClickHouseBackendSpec, verdict: Result<(), String>) -> Option<
    Seq<char>,
> {
    either(
        cred_error("statement"@, spec.statement@),
        if spec.operation == ClickHouseOperation::Query && spec.query.read_only && !is_blank(
            spec.statement@,
        ) {
            verdict_error(verdict)
        } else {
            None
        },
    )
}

/// What is said of a setting that only the resource surface has.
pub open spec fn resource_only_message(field: Seq<char>, surface: Surface) -> Seq<char> {
    field + " is only valid with `surface: resource` (this binding is `surface: "@ + surface_word(
        surface,
    ) + "`)"@
}

/// Why the fixed URI of a binding is refused.
pub open spec fn uri_error(spec: ClickHouseBackendSpec) -> Option<Seq<char>> {
    match spec.uri {
        None => None,
        Some(uri) => either(
            error_if(
                spec.surface != Surface::Resource,
                resource_only_message("`uri`"@, spec.surface),
            ),
            error_if(is_blank(uri@), "`uri` must not be empty"@),
        ),
    }
}

/// Why the `read_query` of a binding is refused.
pub open spec fn read_query_error(
    spec: ClickHouseBackendSpec,
    verdict: Result<(), String>,
) -> Option<Seq<char>> {
    match spec.read_query {
        None => None,
        Some(sql) => either(
            error_if(is_blank(sql@), "`read_query` must not be empty"@),
            either(
                error_if(
                    spec.surface != Surface::Resource,
                    resource_only_message("`read_query`"@, spec.surface),
                ),
                either(
                    cred_error("read_query"@, sql@),
                    if spec.query.read_only {
                        verdict_error(verdict)
                    } else {
                        None
                    },
                ),
            ),
        ),
    }
}

/// Why the listing of a binding is refused.
pub open spec fn listing_error(spec: ClickHouseBackendSpec, verdict: Result<(), String>) -> Option<
    Seq<char>,
> {
    match spec.list_query {
        None => None,
        Some(cfg) => either(
            list_query_error(cfg),
            either(
                cred_error("list_query.sql"@, cfg.sql@),
                if spec.query.read_only {
                    verdict_error(verdict)
                } else {
                    None
                },
            ),
        ),
    }
}

/// Why one completion of a binding is refused.
pub open spec fn one_completion_error(
    name: Seq<char>,
    cfg: CompletionConfig,
    read_only: bool,
    verdict: Result<(), String>,
) -> Option<Seq<char>> {
    either(
        completion_error(name, cfg),
        either(
            cred_error("variable_completions."@ + name + ".sql"@, cfg.sql@),
            if read_only {
                verdict_error(verdict)
            } else {
                None
            },
        ),
    )
}

/// Why the completions of a binding, from the one at `from` on, are refused.
pub open spec fn completions_error(
    completions: Seq<(String, CompletionConfig)>,
    read_only: bool,
    verdicts: Seq<Result<(), String>>,
    from: int,
) -> Option<Seq<char>>
    decreases completions.len() - from,
{
    if from < 0 || from >= completions.len() {
        None
    } else {
        either(
            one_completion_error(
                completions[from].0@,
                completions[from].1,
                read_only,
                verdicts[from],
            ),
            completions_error(completions, read_only, verdicts, from + 1),
        )
    }
}

/// Why a binding is refused, if it is: the first of the rules that it breaks.
pub open spec fn spec_error(spec: ClickHouseBackendSpec, verdicts: ReadOnlyVerdicts) -> Option<
    Seq<char>,
> {
    either(
        error_if(is_blank(spec.url@), "url must not be empty"@),
        either(
            operation_error(spec),
            either(
                bounds_error(spec),
                either(
                    either(
                        cred_error("url"@, spec.url@),
                        cred_error("auth.password"@, text_or_empty(spec.auth.password)),
                    ),
                    either(
                        statement_error(spec, verdicts.statement),
                        either(
                            uri_error(spec),
                            either(
                                read_query_error(spec, verdicts.read_query),
                                either(
                                    listing_error(spec, verdicts.list_query),
                                    completions_error(
                                        spec.variable_completions@,
                                        spec.query.read_only,
                                        verdicts.completions@,
                                        0,
                                    ),
                                ),
                            ),
                        ),
                    ),
                ),
            ),
        ),
    )
}

/// Whether an optional setting holds no text but white space.
fn unset(value: &Option<String>) -> (r: bool)
    ensures
        r == is_unset(*value),
{
    match value {
        Some(s) => blank(s.as_str()),
        None => true,
    }
}

/// A copy of a verdict.
fn same_verdict(verdict: &Result<(), String>) -> (r: Result<(), String>)
    ensures
        verdict_is(r, verdict_error(*verdict)),
{
    match verdict {
        Ok(_) => Ok(()),
        Err(message) => Err(message.clone()),
    }
}

fn check_operation(spec: &ClickHouseBackendSpec) -> (r: Result<(), String>)
    ensures
        verdict_is(r, operation_error(*spec)),
{
    match spec.operation {
        ClickHouseOperation::Query => {
            if blank(spec.statement.as_str()) && unset(&spec.read_query) {
                return Err(
                    "statement must not be empty (or set `read_query` for a resource_template read binding)".to_owned(),
                );
            }
        },
        ClickHouseOperation::ListColumns => {
            if unset(&spec.catalog_table) && unset(&spec.catalog_table_arg) {
                return Err(
                    "operation: list_columns requires a `catalog_table` filter or a `catalog_table_arg` (the table whose columns to list)".to_owned(),
                );
            }
        },
        ClickHouseOperation::ListTables => {},
    }
    Ok(())
}

fn check_bounds(spec: &ClickHouseBackendSpec) -> (r: Result<(), String>)
    ensures
        verdict_is(r, bounds_error(*spec)),
{
    if spec.query.max_execution_time_ms == 0 {
        return Err("query.max_execution_time_ms must be greater than 0".to_owned());
    }
    if spec.query.max_result_rows == 0 {
        return Err("query.max_result_rows must be greater than 0".to_owned());
    }
    if !spec.tls.verify_peer {
        return Err(
            "clickhouse tls.verify_peer=false is not supported; configure a trusted CA instead".to_owned(),
        );
    }
    Ok(())
}

/// Refuses a password that is a secret reference which was not resolved.
fn check_password(auth: &ClickHouseAuth) -> (r: Result<(), String>)
    ensures
        verdict_is(r, cred_error("auth.password"@, text_or_empty(auth.password))),
{
    match &auth.password {
        Some(password) => reject_bare_cred("auth.password", password.as_str()),
        None => reject_bare_cred("auth.password", String::new().as_str()),
    }
}

fn check_statement(spec: &ClickHouseBackendSpec, verdict: &Result<(), String>) -> (r: Result<
    (),
    String,
>)
    ensures
        verdict_is(r, statement_error(*spec, *verdict)),
{
    let bare = reject_bare_cred("statement", spec.statement.as_str());
    if bare.is_err() {
        return bare;
    }
    if spec.operation == ClickHouseOperation::Query && spec.query.read_only && !blank(
        spec.statement.as_str(),
    ) {
        return same_verdict(verdict);
    }
    Ok(())
}

fn resource_only(field: &str, surface: Surface) -> (r: String)
    ensures
        r@ == resource_only_message(field@, surface),
{
    let mut message: String = field.to_owned();
    message.append(" is only valid with `surface: resource` (this binding is `surface: ");
    message.append(surface.as_str());
    message.append("`)");
    message
}

fn check_uri(spec: &ClickHouseBackendSpec) -> (r: Result<(), String>)
    ensures
        verdict_is(r, uri_error(*spec)),
{
    match &spec.uri {
        None => Ok(()),
        Some(uri) => {
            if spec.surface != Surface::Resource {
                return Err(resource_only("`uri`", spec.surface));
            }
            if blank(uri.as_str()) {
                return Err("`uri` must not be empty".to_owned());
            }
            Ok(())
        },
    }
}

fn check_read_query(spec: &ClickHouseBackendSpec, verdict: &Result<(), String>) -> (r: Result<
    (),
    String,
>)
    ensures
        verdict_is(r, read_query_error(*spec, *verdict)),
{
    match &spec.read_query {
        None => Ok(()),
        Some(sql) => {
            if blank(sql.as_str()) {
                return Err("`read_query` must not be empty".to_owned());
            }
            if spec.surface != Surface::Resource {
                return Err(resource_only("`read_query`", spec.surface));
            }
            let bare = reject_bare_cred("read_query", sql.as_str());
            if bare.is_err() {
                return bare;
            }
            if spec.query.read_only {
                return same_verdict(verdict);
            }
            Ok(())
        },
    }
}

fn check_listing(spec: &ClickHouseBackendSpec, verdict: &Result<(), String>) -> (r: Result<
    (),
    String,
>)
    ensures
        verdict_is(r, listing_error(*spec, *verdict)),
{
    match &spec.list_query {
        None => Ok(()),
        Some(cfg) => {
            let valid = validate_list_query(cfg);
            if valid.is_err() {
                return valid;
            }
            let bare = reject_bare_cred("list_query.sql", cfg.sql.as_str());
            if bare.is_err() {
                return bare;
            }
            if spec.query.read_only {
                return same_verdict(verdict);
            }
            Ok(())
        },
    }
}

fn check_completion(
    name: &str,
    cfg: &CompletionConfig,
    read_only: bool,
    verdict: &Result<(), String>,
) -> (r: Result<(), String>)
    ensures
        verdict_is(r, one_completion_error(name@, *cfg, read_only, *verdict)),
{
    let valid = validate_completion(name, cfg);
    if valid.is_err() {
        return valid;
    }
    let mut field: String = "variable_completions.".to_owned();
    field.append(name);
    field.append(".sql");
    let bare = reject_bare_cred(field.as_str(), cfg.sql.as_str());
    if bare.is_err() {
        return bare;
    }
    if read_only {
        return same_verdict(verdict);
    }
    Ok(())
}

fn check_completions(
    completions: &Vec<(String, CompletionConfig)>,
    read_only: bool,
    verdicts: &Vec<Result<(), String>>,
) -> (r: Result<(), String>)
    requires
        completions@.len() == verdicts@.len(),
    ensures
        verdict_is(r, completions_error(completions@, read_only, verdicts@, 0)),
{
    let n: usize = completions.len();
    for i in 0..n
        invariant
            n == completions@.len(),
            n == verdicts@.len(),
            completions_error(completions@, read_only, verdicts@, 0) == completions_error(
                completions@,
                read_only,
                verdicts@,
                i as int,
            ),
    {
        let one = check_completion(
            completions[i].0.as_str(),
            &completions[i].1,
            read_only,
            &verdicts[i],
        );
        if one.is_err() {
            return one;
        }
    }
    Ok(())
}

/// Checks a binding against the rules for registration, in their order. The
/// read-only guard's verdicts count only where the binding is read-only.
pub fn validate_spec(spec: &ClickHouseBackendSpec, verdicts: &ReadOnlyVerdicts) -> (r: Result<
    (),
    String,
>)
    requires
        spec.variable_completions@.len() == verdicts.completions@.len(),
    ensures
        verdict_is(r, spec_error(*spec, *verdicts)),
{
    if blank(spec.url.as_str()) {
        return Err("url must not be empty".to_owned());
    }
    let operation = check_operation(spec);
    if operation.is_err() {
        return operation;
    }
    let bounds = check_bounds(spec);
    if bounds.is_err() {
        return bounds;
    }
    let url = reject_bare_cred("url", spec.url.as_str());
    if url.is_err() {
        return url;
    }
    let password = check_password(&spec.auth);
    if password.is_err() {
        return password;
    }
    let statement = check_statement(spec, &verdicts.statement);
    if statement.is_err() {
        return statement;
    }
    let uri = check_uri(spec);
    if uri.is_err() {
        return uri;
    }
    let read_query = check_read_query(spec, &verdicts.read_query);
    if read_query.is_err() {
        return read_query;
    }
    let listing = check_listing(spec, &verdicts.list_query);
    if listing.is_err() {
        return listing;
    }
    check_completions(&spec.variable_completions, spec.query.read_only, &verdicts.completions)
}

/// The filters of the catalog operations: for the database and for the table a
/// fixed value and the name of a call argument that overrides it.
#[derive(Debug, Clone)]
pub struct CatalogFilterConfig {
    pub database: Option<String>,
    pub database_arg: Option<String>,
    pub table: Option<String>,
    pub table_arg: Option<String>,
}

impl Default for CatalogFilterConfig {
    fn default() -> (r: Self)
        ensures
            r.database is None,
            r.database_arg is None,
            r.table is None,
            r.table_arg is None,
    {
        CatalogFilterConfig { database: None, database_arg: None, table: None, table_arg: None }
    }
}

/// The text of an optional string.
pub open spec fn string_text(value: Option<String>) -> Option<Seq<char>> {
    match value {
        Some(s) => Some(s@),
        None => None,
    }
}

/// One filter for one call: the text under the named argument where the call
/// holds one that is not blank, else the fixed value.
pub open spec fn resolved_filter(
    fixed: Option<Seq<char>>,
    argument: Option<Seq<char>>,
    arguments: JsonView,
) -> Option<Seq<char>> {
    match argument {
        Some(name) => match text_under(arguments, name) {
            Some(given) => if is_blank(given) {
                fixed
            } else {
                Some(given)
            },
            None => fixed,
        },
        None => fixed,
    }
}

/// Resolves one filter for one call: a string under the named argument overrides
/// the fixed value, unless it is blank; without either there is no filter. A caller
/// cannot take the fixed value away.
pub fn resolve_one(
    static_value: Option<&str>,
    arg_name: Option<&str>,
    arguments: &serde_json::Value,
) -> (r: Option<String>)
    ensures
        string_text(r) == resolved_filter(
            filter_text(static_value),
            filter_text(arg_name),
            json_of(*arguments),
        ),
{
    if let Some(name) = arg_name {
        if let Some(given) = member_text(arguments, name) {
            if !blank(given.as_str()) {
                return Some(given.clone());
            }
        }
    }
    match static_value {
        Some(s) => Some(s.to_owned()),
        None => None,
    }
}

/// An optional string, borrowed.
pub(crate) fn borrow_text(value: &Option<String>) -> (r: Option<&str>)
    ensures
        filter_text(r) == string_text(*value),
{
    match value {
        Some(s) => Some(s.as_str()),
        None => None,
    }
}

/// The names that are given, in order.
pub open spec fn given_names(first: Option<String>, second: Option<String>) -> Seq<Seq<char>> {
    (match first {
        Some(s) => seq![s@],
        None => Seq::empty(),
    }) + (match second {
        Some(s) => seq![s@],
        None => Seq::empty(),
    })
}

impl CatalogFilterConfig {
    /// Resolves the database filter and the table filter for one call.
    pub fn resolve(&self, arguments: &serde_json::Value) -> (r: (Option<String>, Option<String>))
        ensures
            string_text(r.0) == resolved_filter(
                string_text(self.database),
                string_text(self.database_arg),
                json_of(*arguments),
            ),
            string_text(r.1) == resolved_filter(
                string_text(self.table),
                string_text(self.table_arg),
                json_of(*arguments),
            ),
    {
        (
            resolve_one(borrow_text(&self.database), borrow_text(&self.database_arg), arguments),
            resolve_one(borrow_text(&self.table), borrow_text(&self.table_arg), arguments),
        )
    }

    /// The distinct names of the call arguments that are read.
    pub fn argument_names(&self) -> (r: Vec<String>)
        ensures
            texts(r@) == first_seen(given_names(self.database_arg, self.table_arg)),
    {
        let mut names: Vec<String> = Vec::new();
        reveal_with_fuel(first_seen, 3);
        assert(texts(names@) =~= Seq::<Seq<char>>::empty());
        if let Some(name) = &self.database_arg {
            push_new(&mut names, name.clone());
        }
        if let Some(name) = &self.table_arg {
            push_new(&mut names, name.clone());
        }
        proof {
            let all = given_names(self.database_arg, self.table_arg);
            if all.len() == 2 {
                assert(all.drop_last() =~= seq![all[0]]);
                assert(all.drop_last().drop_last() =~= Seq::<Seq<char>>::empty());
            }
            if all.len() == 1 {
                assert(all.drop_last() =~= Seq::<Seq<char>>::empty());
            }
        }
        names
    }
}

/// A registered binding.
pub struct ClickHouseProfile {
    pub client: clickhouse::Client,
    /// The name under which an envelope tells the database.
    pub database: String,
    pub operation: ClickHouseOperation,
    pub read_only: bool,
    pub statement: String,
    pub compiled_params: Vec<CompiledParam>,
    /// Read by the catalog operations alone.
    pub catalog_filters: CatalogFilterConfig,
    pub max_rows: usize,
    pub timeout_ms: u64,
    pub settings: Vec<(String, String)>,
    pub surface: Surface,
    pub surface_uri: Option<String>,
    pub list_query: Option<ListQueryConfig>,
    pub read_query: Option<String>,
    pub variable_completions: Vec<(String, CompletionConfig)>,
}

/// The name under which an envelope tells the database.
pub open spec fn database_label(database: Option<String>) -> Seq<char> {
    match database {
        Some(name) => name@,
        None => "default"@,
    }
}

/// Whether `profile` is what the binding `spec` with the accepted expressions
/// `compiled` is registered as.
pub open spec fn profile_of(
    profile: ClickHouseProfile,
    spec: ClickHouseBackendSpec,
    compiled: Seq<CompiledParam>,
) -> bool {
    &&& client_of(profile.client) == binding_client(
        spec.url@,
        string_text(spec.database),
        string_text(spec.auth.username),
        string_text(spec.auth.password),
    )
    &&& profile.database@ == database_label(spec.database)
    &&& profile.operation == spec.operation
    &&& profile.read_only == spec.query.read_only
    &&& profile.statement == spec.statement
    &&& profile.compiled_params@ == compiled
    &&& profile.catalog_filters == (CatalogFilterConfig {
        database: spec.catalog_database,
        database_arg: spec.catalog_database_arg,
        table: spec.catalog_table,
        table_arg: spec.catalog_table_arg,
    })
    &&& profile.max_rows == spec.query.max_result_rows
    &&& profile.timeout_ms == spec.query.max_execution_time_ms
    &&& profile.settings == spec.query.settings
    &&& profile.surface == spec.surface
    &&& profile.surface_uri == spec.uri
    &&& profile.list_query == spec.list_query
    &&& profile.read_query == spec.read_query
    &&& profile.variable_completions == spec.variable_completions
}

/// Whether an operator-fixed text holds no bare secret reference.
pub open spec fn no_bare_cred(s: Seq<char>) -> bool {
    !occurs(s, "cred://"@)
}

/// What holds of every registered binding.
pub open spec fn profile_valid(profile: ClickHouseProfile) -> bool {
    &&& profile.max_rows > 0
    &&& profile.timeout_ms > 0
    &&& profile.operation == ClickHouseOperation::Query ==> !is_blank(profile.statement@)
        || !is_unset(profile.read_query)
    &&& profile.operation == ClickHouseOperation::ListColumns ==> !is_unset(
        profile.catalog_filters.table,
    ) || !is_unset(profile.catalog_filters.table_arg)
    &&& !is_blank(client_of(profile.client).url)
    &&& no_bare_cred(client_of(profile.client).url)
    &&& client_of(profile.client).password matches Some(password) ==> no_bare_cred(password)
    &&& names_ascend(setting_names(profile.settings@))
    &&& names_ascend(completion_names(profile.variable_completions@))
    &&& no_bare_cred(profile.statement@)
    &&& profile.surface_uri matches Some(uri) ==> profile.surface == Surface::Resource && !is_blank(
        uri@,
    )
    &&& profile.read_query matches Some(sql) ==> profile.surface == Surface::Resource && !is_blank(
        sql@,
    ) && no_bare_cred(sql@)
    &&& profile.list_query matches Some(cfg) ==> list_query_error(cfg) is None && no_bare_cred(
        cfg.sql@,
    )
    &&& forall|i: int|
        0 <= i < profile.variable_completions@.len() ==> completion_error(
            (#[trigger] profile.variable_completions@[i]).0@,
            profile.variable_completions@[i].1,
        ) is None && no_bare_cred(profile.variable_completions@[i].1.sql@)
}

/// Where no completion is refused, none of them is.
proof fn lemma_completions_pass(
    completions: Seq<(String, CompletionConfig)>,
    read_only: bool,
    verdicts: Seq<Result<(), String>>,
    from: int,
    i: int,
)
    requires
        completions_error(completions, read_only, verdicts, from) is None,
        0 <= from <= i < completions.len(),
    ensures
        one_completion_error(completions[i].0@, completions[i].1, read_only, verdicts[i]) is None,
    decreases i - from,
{
    if from < i {
        lemma_completions_pass(completions, read_only, verdicts, from + 1, i);
    }
}

/// A binding that breaks no rule is registered as a valid profile.
pub proof fn law_accepted_profile_is_valid(
    profile: ClickHouseProfile,
    spec: ClickHouseBackendSpec,
    verdicts: ReadOnlyVerdicts,
    compiled: Seq<CompiledParam>,
)
    requires
        spec.well_formed(),
        spec_error(spec, verdicts) is None,
        profile_of(profile, spec, compiled),
    ensures
        profile_valid(profile),
{
    assert forall|i: int| 0 <= i < profile.variable_completions@.len() implies completion_error(
        (#[trigger] profile.variable_completions@[i]).0@,
        profile.variable_completions@[i].1,
    ) is None && no_bare_cred(profile.variable_completions@[i].1.sql@) by {
        lemma_completions_pass(
            spec.variable_completions@,
            spec.query.read_only,
            verdicts.completions@,
            0,
            i,
        );
    }
}

/// Under the read-only guard, a binding is accepted only where the guard passes
/// every operator-fixed statement that it can run.
pub proof fn law_read_only_binding_is_guarded(
    spec: ClickHouseBackendSpec,
    verdicts: ReadOnlyVerdicts,
)
    requires
        spec_error(spec, verdicts) is None,
        spec.query.read_only,
    ensures
        spec.operation == ClickHouseOperation::Query && !is_blank(spec.statement@)
            ==> verdicts.statement is Ok,
        spec.read_query is Some ==> verdicts.read_query is Ok,
        spec.list_query is Some ==> verdicts.list_query is Ok,
        forall|i: int|
            0 <= i < spec.variable_completions@.len() ==> (#[trigger] verdicts.completions@[i]) is Ok,
{
    assert forall|i: int| 0 <= i < spec.variable_completions@.len() implies (
    #[trigger] verdicts.completions@[i]) is Ok by {
        lemma_completions_pass(
            spec.variable_completions@,
            spec.query.read_only,
            verdicts.completions@,
            0,
            i,
        );
    }
}

/// What the guard says of the statement is of no account to a catalog operation,
/// which runs none, nor to a binding that is not held to reading.
pub proof fn law_statement_guard_is_for_read_only_queries(
    spec: ClickHouseBackendSpec,
    verdicts: ReadOnlyVerdicts,
    other: Result<(), String>,
)
    requires
        reads_catalog(spec.operation) || !spec.query.read_only,
    ensures
        spec_error(spec, verdicts) == spec_error(
            spec,
            ReadOnlyVerdicts { statement: other, ..verdicts },
        ),
{
}

/// A binding that turns the verification of the server's certificate off is
/// refused, whatever else it says.
pub proof fn law_tls_is_always_verified(spec: ClickHouseBackendSpec, verdicts: ReadOnlyVerdicts)
    requires
        !spec.tls.verify_peer,
    ensures
        spec_error(spec, verdicts) is Some,
{
}

/// A binding whose password is a secret reference that was not resolved is refused,
/// whatever else it says.
pub proof fn law_bare_password_is_refused(spec: ClickHouseBackendSpec, verdicts: ReadOnlyVerdicts)
    requires
        !no_bare_cred(text_or_empty(spec.auth.password)),
    ensures
        spec_error(spec, verdicts) is Some,
{
}

/// Every query of a registered binding is sent under each of the binding's settings,
/// whatever the statement and the values are.
pub proof fn law_registered_settings_are_sent(
    profile: ClickHouseProfile,
    statement: Seq<char>,
    values: Seq<BindView>,
    i: int,
)
    requires
        profile_valid(profile),
        0 <= i < profile.settings@.len(),
    ensures
        setting_of(
            request_view(
                client_of(profile.client),
                statement,
                values,
                profile.timeout_ms as nat,
                setting_texts(profile.settings@),
            ),
            profile.settings@[i].0@,
        ) == Some(profile.settings@[i].1@),
{
    let settings = setting_texts(profile.settings@);
    let names = setting_names(profile.settings@);
    assert forall|a: int, b: int| 0 <= a < b < settings.len() implies (#[trigger] settings[a]).0 != (
    #[trigger] settings[b]).0 by {
        assert(before(names[a], names[b]));
        lemma_before_irreflexive(names[a]);
    }
    law_operator_settings_win(
        client_of(profile.client),
        statement,
        values,
        profile.timeout_ms as nat,
        settings,
        settings[i].0,
    );
    let start = setting_of(
        query_with_option(
            QueryView { client: client_of(profile.client), sql: None },
            "max_execution_time"@,
            decimal_text(budget_seconds(profile.timeout_ms as nat)),
        ),
        settings[i].0,
    );
    lemma_each_setting_stands(start, settings, i);
}

impl ClickHouseProfile {
    /// The profile that a binding is registered as. No socket is opened.
    pub fn from_spec(spec: ClickHouseBackendSpec, compiled: Vec<CompiledParam>) -> (r: Self)
        ensures
            profile_of(r, spec, compiled@),
    {
        let client = build_client(
            spec.url.as_str(),
            borrow_text(&spec.database),
            borrow_text(&spec.auth.username),
            borrow_text(&spec.auth.password),
        );
        let database: String = match spec.database {
            Some(name) => name,
            None => "default".to_owned(),
        };
        ClickHouseProfile {
            client,
            database,
            operation: spec.operation,
            read_only: spec.query.read_only,
            statement: spec.statement,
            compiled_params: compiled,
            catalog_filters: CatalogFilterConfig {
                database: spec.catalog_database,
                database_arg: spec.catalog_database_arg,
                table: spec.catalog_table,
                table_arg: spec.catalog_table_arg,
            },
            max_rows: spec.query.max_result_rows,
            timeout_ms: spec.query.max_execution_time_ms,
            settings: spec.query.settings,
            surface: spec.surface,
            surface_uri: spec.uri,
            list_query: spec.list_query,
            read_query: spec.read_query,
            variable_completions: spec.variable_completions,
        }
    }

    /// Whether a query of this binding is held to reading. The catalog operations
    /// always are.
    pub open spec fn only_reads(self) -> bool {
        self.read_only || reads_catalog(self.operation)
    }

    /// Prepares a statement of this binding for the server.
    pub fn prepare(&self, statement: &str, bound: &[ChBind]) -> (r: PreparedQuery)
        ensures
            query_of(r.query) == request_view(
                client_of(self.client),
                statement@,
                bind_views(bound@),
                self.timeout_ms as nat,
                setting_texts(self.settings@),
            ),
            r.fetches == self.only_reads(),
    {
        prepare_query(
            &self.client,
            statement,
            bound,
            self.read_only || self.operation.is_catalog(),
            self.timeout_ms,
            self.settings.as_slice(),
        )
    }
}

/// Where every completion passes by itself, all of them do.
proof fn lemma_passing_completions_pass(
    completions: Seq<(String, CompletionConfig)>,
    read_only: bool,
    verdicts: Seq<Result<(), String>>,
    from: int,
)
    requires
        0 <= from,
        forall|i: int|
            from <= i < completions.len() ==> one_completion_error(
                (#[trigger] completions[i]).0@,
                completions[i].1,
                read_only,
                verdicts[i],
            ) is None,
    ensures
        completions_error(completions, read_only, verdicts, from) is None,
    decreases completions.len() - from,
{
    if from < completions.len() {
        assert(one_completion_error(
            completions[from].0@,
            completions[from].1,
            read_only,
            verdicts[from],
        ) is None);
        lemma_passing_completions_pass(completions, read_only, verdicts, from + 1);
    }
}

/// A completion passes where, and only where, it has one placeholder, no bare secret
/// reference and, under the guard, the guard's leave.
pub proof fn law_one_completion_passes(
    name: Seq<char>,
    cfg: CompletionConfig,
    read_only: bool,
    verdict: Result<(), String>,
)
    ensures
        one_completion_error(name, cfg, read_only, verdict) is None <==> {
            &&& !is_blank(cfg.sql@)
            &&& bind_count(cfg.sql@) == 1
            &&& !occurs(cfg.sql@, "cred://"@)
            &&& read_only ==> verdict is Ok
        },
{
}

/// A binding is accepted where, and only where, all of this holds: it names a server and
/// has what its operation needs, its bounds are above zero, the certificate is verified,
/// no operator-fixed text holds a bare secret reference, what only a resource has stands
/// on a resource, its listing and its completions are in order, and under the guard the
/// guard has passed every statement. Nothing else counts against it.
pub proof fn law_binding_is_accepted(spec: ClickHouseBackendSpec, verdicts: ReadOnlyVerdicts)
    ensures
        spec_error(spec, verdicts) is None <==> {
            &&& !is_blank(spec.url@)
            &&& spec.operation == ClickHouseOperation::Query ==> !is_blank(spec.statement@)
                || !is_blank(text_or_empty(spec.read_query))
            &&& spec.operation == ClickHouseOperation::ListColumns ==> !is_blank(
                text_or_empty(spec.catalog_table),
            ) || !is_blank(text_or_empty(spec.catalog_table_arg))
            &&& spec.query.max_execution_time_ms > 0
            &&& spec.query.max_result_rows > 0
            &&& spec.tls.verify_peer
            &&& !occurs(spec.url@, "cred://"@)
            &&& !occurs(text_or_empty(spec.auth.password), "cred://"@)
            &&& !occurs(spec.statement@, "cred://"@)
            &&& spec.operation == ClickHouseOperation::Query && spec.query.read_only && !is_blank(
                spec.statement@,
            ) ==> verdicts.statement is Ok
            &&& spec.uri matches Some(uri) ==> spec.surface == Surface::Resource && !is_blank(uri@)
            &&& spec.read_query matches Some(sql) ==> {
                &&& spec.surface == Surface::Resource
                &&& !is_blank(sql@)
                &&& !occurs(sql@, "cred://"@)
                &&& spec.query.read_only ==> verdicts.read_query is Ok
            }
            &&& spec.list_query matches Some(cfg) ==> {
                &&& list_query_error(cfg) is None
                &&& !occurs(cfg.sql@, "cred://"@)
                &&& spec.query.read_only ==> verdicts.list_query is Ok
            }
            &&& forall|i: int|
                0 <= i < spec.variable_completions@.len() ==> one_completion_error(
                    (#[trigger] spec.variable_completions@[i]).0@,
                    spec.variable_completions@[i].1,
                    spec.query.read_only,
                    verdicts.completions@[i],
                ) is None
        },
{
    reveal_strlit("cred://");
    let completions = spec.variable_completions@;
    if completions_error(completions, spec.query.read_only, verdicts.completions@, 0) is None {
        assert forall|i: int| 0 <= i < completions.len() implies one_completion_error(
            (#[trigger] completions[i]).0@,
            completions[i].1,
            spec.query.read_only,
            verdicts.completions@[i],
        ) is None by {
            lemma_completions_pass(
                completions,
                spec.query.read_only,
                verdicts.completions@,
                0,
                i,
            );
        }
    }
    if forall|i: int|
        0 <= i < completions.len() ==> one_completion_error(
            (#[trigger] completions[i]).0@,
            completions[i].1,
            spec.query.read_only,
            verdicts.completions@[i],
        ) is None {
        lemma_passing_completions_pass(
            completions,
            spec.query.read_only,
            verdicts.completions@,
            0,
        );
    }
}

/// What is said of a bare secret reference names the field.
pub proof fn law_bare_references_are_told(field: Seq<char>, value: Seq<char>)
    ensures
        occurs(value, "cred://"@) ==> cred_error(field, value) == Some(
            field
                + " must not contain a bare cred:// URI — use ${cred://…} (resolved at config load)"@,
        ),
        !occurs(value, "cred://"@) ==> cred_error(field, value) is None,
        no_bare_cred(value) <==> !occurs(value, "cred://"@),
{
}

/// The first faults of a binding are told in this order: the server, the statement or
/// the table, the bounds, the certificate, and bare references in the server's address,
/// the password and the statement.
pub proof fn law_first_faults_are_told(spec: ClickHouseBackendSpec, verdicts: ReadOnlyVerdicts)
    ensures
        ({
            let told = spec_error(spec, verdicts);
            let lacks_statement = spec.operation == ClickHouseOperation::Query && is_blank(
                spec.statement@,
            ) && is_blank(text_or_empty(spec.read_query));
            let lacks_table = spec.operation == ClickHouseOperation::ListColumns && is_blank(
                text_or_empty(spec.catalog_table),
            ) && is_blank(text_or_empty(spec.catalog_table_arg));
            let named = !is_blank(spec.url@);
            let complete = named && !lacks_statement && !lacks_table;
            let timed = complete && spec.query.max_execution_time_ms > 0;
            let bounded = timed && spec.query.max_result_rows > 0;
            let verified = bounded && spec.tls.verify_peer;
            let addressed = verified && !occurs(spec.url@, "cred://"@);
            let resolved = addressed && !occurs(text_or_empty(spec.auth.password), "cred://"@);
            &&& !named ==> told == Some("url must not be empty"@)
            &&& named && lacks_statement ==> told == Some(
                "statement must not be empty (or set `read_query` for a resource_template read binding)"@,
            )
            &&& named && lacks_table ==> told == Some(
                "operation: list_columns requires a `catalog_table` filter or a `catalog_table_arg` (the table whose columns to list)"@,
            )
            &&& complete && !timed ==> told == Some(
                "query.max_execution_time_ms must be greater than 0"@,
            )
            &&& timed && !bounded ==> told == Some("query.max_result_rows must be greater than 0"@)
            &&& bounded && !verified ==> told == Some(
                "clickhouse tls.verify_peer=false is not supported; configure a trusted CA instead"@,
            )
            &&& verified && !addressed ==> told == cred_error("url"@, spec.url@)
            &&& addressed && !resolved ==> told == cred_error(
                "auth.password"@,
                text_or_empty(spec.auth.password),
            )
            &&& resolved && occurs(spec.statement@, "cred://"@) ==> told == cred_error(
                "statement"@,
                spec.statement@,
            )
        }),
{
}

/// The faults of the parts of a binding are told in this order: the guard on the
/// statement, the fixed URI, the `read_query`, the listing, the completions; and within
/// a part, what is amiss with it before a bare reference, and that before the guard.
pub proof fn law_faults_of_the_parts_are_told(
    spec: ClickHouseBackendSpec,
    verdicts: ReadOnlyVerdicts,
)
    requires
        !is_blank(spec.url@),
        operation_error(spec) is None,
        bounds_error(spec) is None,
        !occurs(spec.url@, "cred://"@),
        !occurs(text_or_empty(spec.auth.password), "cred://"@),
        !occurs(spec.statement@, "cred://"@),
    ensures
        ({
            let told = spec_error(spec, verdicts);
            let guarded = !(spec.operation == ClickHouseOperation::Query && spec.query.read_only
                && !is_blank(spec.statement@)) || verdicts.statement is Ok;
            let placed = guarded && uri_error(spec) is None;
            let readable = placed && read_query_error(spec, verdicts.read_query) is None;
            let listed = readable && listing_error(spec, verdicts.list_query) is None;
            &&& !guarded ==> told == verdict_error(verdicts.statement)
            &&& guarded && !placed ==> told == uri_error(spec)
            &&& placed && !readable ==> told == read_query_error(spec, verdicts.read_query)
            &&& readable && !listed ==> told == listing_error(spec, verdicts.list_query)
            &&& listed ==> told == completions_error(
                spec.variable_completions@,
                spec.query.read_only,
                verdicts.completions@,
                0,
            )
        }),
        spec.uri matches Some(uri) ==> {
            &&& spec.surface != Surface::Resource ==> uri_error(spec) == Some(
                "`uri`"@ + " is only valid with `surface: resource` (this binding is `surface: "@
                    + surface_word(spec.surface) + "`)"@,
            )
            &&& spec.surface == Surface::Resource && is_blank(uri@) ==> uri_error(spec) == Some(
                "`uri` must not be empty"@,
            )
        },
        spec.read_query matches Some(sql) ==> {
            &&& is_blank(sql@) ==> read_query_error(spec, verdicts.read_query) == Some(
                "`read_query` must not be empty"@,
            )
            &&& !is_blank(sql@) && spec.surface != Surface::Resource ==> read_query_error(
                spec,
                verdicts.read_query,
            ) == Some(
                "`read_query`"@
                    + " is only valid with `surface: resource` (this binding is `surface: "@
                    + surface_word(spec.surface) + "`)"@,
            )
            &&& !is_blank(sql@) && spec.surface == Surface::Resource && occurs(sql@, "cred://"@)
                ==> read_query_error(spec, verdicts.read_query) == cred_error("read_query"@, sql@)
            &&& !is_blank(sql@) && spec.surface == Surface::Resource && !occurs(sql@, "cred://"@)
                && spec.query.read_only ==> read_query_error(spec, verdicts.read_query)
                == verdict_error(verdicts.read_query)
        },
        spec.list_query matches Some(cfg) ==> {
            &&& list_query_error(cfg) is Some ==> listing_error(spec, verdicts.list_query)
                == list_query_error(cfg)
            &&& list_query_error(cfg) is None && occurs(cfg.sql@, "cred://"@) ==> listing_error(
                spec,
                verdicts.list_query,
            ) == cred_error("list_query.sql"@, cfg.sql@)
            &&& list_query_error(cfg) is None && !occurs(cfg.sql@, "cred://"@)
                && spec.query.read_only ==> listing_error(spec, verdicts.list_query)
                == verdict_error(verdicts.list_query)
        },
{
}

/// Of several completions the first that is refused is told of, and it is told by its
/// name: what is amiss with it before a bare reference, and that before the guard.
pub proof fn law_first_refused_completion_is_told(
    completions: Seq<(String, CompletionConfig)>,
    read_only: bool,
    verdicts: Seq<Result<(), String>>,
    from: int,
    i: int,
)
    requires
        0 <= from <= i < completions.len(),
        forall|k: int|
            from <= k < i ==> one_completion_error(
                (#[trigger] completions[k]).0@,
                completions[k].1,
                read_only,
                verdicts[k],
            ) is None,
        one_completion_error(completions[i].0@, completions[i].1, read_only, verdicts[i]) is Some,
    ensures
        completions_error(completions, read_only, verdicts, from) == one_completion_error(
            completions[i].0@,
            completions[i].1,
            read_only,
            verdicts[i],
        ),
    decreases i - from,
{
    if from < i {
        assert(one_completion_error(
            completions[from].0@,
            completions[from].1,
            read_only,
            verdicts[from],
        ) is None);
        law_first_refused_completion_is_told(completions, read_only, verdicts, from + 1, i);
    }
}

/// What is told of one completion.
pub proof fn law_faults_of_a_completion_are_told(
    name: Seq<char>,
    cfg: CompletionConfig,
    verdict: Result<(), String>,
)
    ensures
        forall|read_only: bool|
            completion_error(name, cfg) is Some ==> #[trigger] one_completion_error(
                name,
                cfg,
                read_only,
                verdict,
            ) == completion_error(name, cfg),
        forall|read_only: bool|
            completion_error(name, cfg) is None && occurs(cfg.sql@, "cred://"@)
                ==> #[trigger] one_completion_error(name, cfg, read_only, verdict) == cred_error(
                "variable_completions."@ + name + ".sql"@,
                cfg.sql@,
            ),
        completion_error(name, cfg) is None && !occurs(cfg.sql@, "cred://"@)
            ==> one_completion_error(name, cfg, true, verdict) == verdict_error(verdict),
        verdict matches Err(message) ==> verdict_error(verdict) == Some(message@),
        verdict is Ok ==> verdict_error(verdict) is None,
{
}

/// A binding is registered with what it was configured with, and nothing else: its
/// client, its statements, its filters, its bounds, its settings and its surface.
pub proof fn law_profile_holds_what_was_configured(
    profile: ClickHouseProfile,
    spec: ClickHouseBackendSpec,
    compiled: Seq<CompiledParam>,
)
    requires
        profile_of(profile, spec, compiled),
    ensures
        client_of(profile.client).url == spec.url@,
        client_of(profile.client).database == string_text(spec.database),
        client_of(profile.client).user == string_text(spec.auth.username),
        client_of(profile.client).password == string_text(spec.auth.password),
        spec.database matches Some(name) ==> profile.database@ == name@,
        spec.database is None ==> profile.database@ == "default"@,
        profile.operation == spec.operation,
        profile.read_only == spec.query.read_only,
        profile.statement@ == spec.statement@,
        profile.compiled_params@ == compiled,
        profile.catalog_filters.database == spec.catalog_database,
        profile.catalog_filters.database_arg == spec.catalog_database_arg,
        profile.catalog_filters.table == spec.catalog_table,
        profile.catalog_filters.table_arg == spec.catalog_table_arg,
        profile.max_rows == spec.query.max_result_rows,
        profile.timeout_ms == spec.query.max_execution_time_ms,
        profile.settings == spec.query.settings,
        profile.surface == spec.surface,
        profile.surface_uri == spec.uri,
        profile.list_query == spec.list_query,
        profile.read_query == spec.read_query,
        profile.variable_completions == spec.variable_completions,
{
}

/// A query is held to reading where the binding is, and for every catalog operation.
pub proof fn law_who_is_held_to_reading(profile: ClickHouseProfile)
    ensures
        profile.only_reads() <==> profile.read_only || profile.operation
            == ClickHouseOperation::ListTables || profile.operation
            == ClickHouseOperation::ListColumns,
{
}

/// The text of an optional string is its own, and the names that are given are those of
/// the two, in order.
pub proof fn law_given_names(first: String, second: String)
    ensures
        string_text(Some(first)) == Some(first@),
        string_text(None) is None,
        given_names(Some(first), Some(second)) == seq![first@, second@],
        given_names(Some(first), None) == seq![first@],
        given_names(None, Some(second)) == seq![second@],
        given_names(None, None).len() == 0,
{
    assert(given_names(Some(first), Some(second)) =~= seq![first@, second@]);
    assert(given_names(Some(first), None) =~= seq![first@]);
    assert(given_names(None, Some(second)) =~= seq![second@]);
}

} // verus!
