//! What an operator configures for one binding, and which listing and
//! completion statements are accepted.
use crate::surface::Surface;
use crate::text::{
    append_decimal, before, blank, chars_of, decimal_text, is_blank, is_word_char, same_text, trim, trimmed,
};
use vstd::prelude::*;
use vstd::string::*;

verus! {

/// The text of an optional setting; empty where there is none.
pub open spec fn text_or_empty(value: Option<String>) -> Seq<char> {
    match value {
        Some(s) => s@,
        None => Seq::empty(),
    }
}

/// Whether a check came out as `error` says: passed where it is `None`, else
/// refused with that text.
pub open spec fn verdict_is(verdict: Result<(), String>, error: Option<Seq<char>>) -> bool {
    match error {
        None => verdict is Ok,
        Some(message) => verdict matches Err(given) && given@ == message,
    }
}

/// HTTP basic auth for the ClickHouse server.
#[derive(Debug, Clone)]
pub struct ClickHouseAuth {
    /// ClickHouse user; the server's default user where there is none.
    pub username: Option<String>,
    /// ClickHouse password, already resolved.
    pub password: Option<String>,
}

impl Default for ClickHouseAuth {
    fn default() -> (r: Self)
        ensures
            r.username is None,
            r.password is None,
    {
        ClickHouseAuth { username: None, password: None }
    }
}

/// TLS settings.
#[derive(Debug, Clone)]
pub struct ClickHouseTls {
    /// Verify the server's certificate chain and host name. A binding that turns
    /// this off is refused.
    pub verify_peer: bool,
}

impl Default for ClickHouseTls {
    fn default() -> (r: Self)
        ensures
            r.verify_peer,
    {
        ClickHouseTls { verify_peer: default_verify_peer() }
    }
}

/// Bounds on the execution of a query.
#[derive(Debug, Clone)]
pub struct ClickHouseQueryConfig {
    /// Milliseconds that one call may take.
    pub max_execution_time_ms: u64,
    /// Rows that are handed out; a further row sets the `truncated` flag.
    pub max_result_rows: usize,
    /// Hold every operator-fixed statement to the read-only guard.
    pub read_only: bool,
    /// Server settings for every query, by name.
    pub settings: Vec<(String, String)>,
}

impl Default for ClickHouseQueryConfig {
    fn default() -> (r: Self)
        ensures
            r.max_execution_time_ms == 30_000,
            r.max_result_rows == 100_000,
            r.read_only,
            r.settings@.len() == 0,
    {
        ClickHouseQueryConfig {
            max_execution_time_ms: default_max_execution_time_ms(),
            max_result_rows: default_max_result_rows(),
            read_only: default_read_only(),
            settings: Vec::new(),
        }
    }
}

/// Milliseconds that a call may take unless the binding says otherwise.
pub fn default_max_execution_time_ms() -> (r: u64)
    ensures
        r == 30_000,
{
    30_000
}

/// Rows that are handed out unless the binding says otherwise.
pub fn default_max_result_rows() -> (r: usize)
    ensures
        r == 100_000,
{
    100_000
}

/// The read-only guard is on unless the binding says otherwise.
pub fn default_read_only() -> (r: bool)
    ensures
        r,
{
    true
}

/// The server's certificate is verified unless the binding says otherwise.
pub fn default_verify_peer() -> (r: bool)
    ensures
        r,
{
    true
}

/// What one binding is configured to do.
#[derive(Debug, Clone)]
pub struct ClickHouseBackendSpec {
    /// Run `statement`, or discover tables or columns.
    pub operation: ClickHouseOperation,
    /// ClickHouse HTTP endpoint.
    pub url: String,
    /// Target database; the server's default where there is none.
    pub database: Option<String>,
    /// Fixed database filter of the catalog operations.
    pub catalog_database: Option<String>,
    /// Call argument that overrides `catalog_database`.
    pub catalog_database_arg: Option<String>,
    /// Fixed table filter of `list_columns`.
    pub catalog_table: Option<String>,
    /// Call argument that overrides `catalog_table`.
    pub catalog_table_arg: Option<String>,
    /// HTTP basic auth.
    pub auth: ClickHouseAuth,
    /// TLS settings.
    pub tls: ClickHouseTls,
    /// The operator-fixed statement, with `?` where a value is bound.
    pub statement: String,
    /// One CEL expression for each `?`, in order.
    pub params: Vec<String>,
    /// Bounds on the execution.
    pub query: ClickHouseQueryConfig,
    /// The MCP surface that the binding serves.
    pub surface: Surface,
    /// Fixed resource URI, for the resource surface.
    pub uri: Option<String>,
    /// Statement that lists resources.
    pub list_query: Option<ListQueryConfig>,
    /// Statement that reads one resource of a resource template.
    pub read_query: Option<String>,
    /// Statement that completes a template variable, by the variable's name.
    pub variable_completions: Vec<(String, CompletionConfig)>,
}

/// Whether names ascend, each once.
pub open spec fn names_ascend(names: Seq<Seq<char>>) -> bool {
    forall|i: int, j: int|
        0 <= i < j < names.len() ==> before(#[trigger] names[i], #[trigger] names[j])
}

/// The names of settings.
pub open spec fn setting_names(settings: Seq<(String, String)>) -> Seq<Seq<char>> {
    settings.map_values(|s: (String, String)| s.0@)
}

/// The names of the variables that have a completion.
pub open spec fn completion_names(completions: Seq<(String, CompletionConfig)>) -> Seq<Seq<char>> {
    completions.map_values(|c: (String, CompletionConfig)| c.0@)
}

impl ClickHouseBackendSpec {
    /// No setting and no variable is named twice, and the names ascend.
    pub open spec fn well_formed(&self) -> bool {
        &&& names_ascend(setting_names(self.query.settings@))
        &&& names_ascend(completion_names(self.variable_completions@))
    }
}

/// The operation that a binding performs.
#[derive(Debug, Clone, Copy, PartialEq, Eq, Structural)]
pub enum ClickHouseOperation {
    /// Run the operator-fixed statement.
    Query,
    /// List tables and views, from `system.tables`.
    ListTables,
    /// List the columns of a table, from `system.columns`.
    ListColumns,
}

impl Default for ClickHouseOperation {
    fn default() -> (r: Self)
        ensures
            r == ClickHouseOperation::Query,
    {
        ClickHouseOperation::Query
    }
}

/// The word for an operation in a configuration.
pub open spec fn operation_word(operation: ClickHouseOperation) -> Seq<char> {
    match operation {
        ClickHouseOperation::Query => "query"@,
        ClickHouseOperation::ListTables => "list_tables"@,
        ClickHouseOperation::ListColumns => "list_columns"@,
    }
}

/// Whether an operation reads the catalog rather than running a statement.
pub open spec fn reads_catalog(operation: ClickHouseOperation) -> bool {
    operation != ClickHouseOperation::Query
}

/// The operation that a word in a configuration names, if it names one.
pub open spec fn operation_of(word: Seq<char>) -> Option<ClickHouseOperation> {
    if word == "query"@ {
        Some(ClickHouseOperation::Query)
    } else if word == "list_tables"@ {
        Some(ClickHouseOperation::ListTables)
    } else if word == "list_columns"@ {
        Some(ClickHouseOperation::ListColumns)
    } else {
        None
    }
}

/// Reading the word of an operation gives the operation back, no other word names
/// one, and every word but `query` names a catalog operation.
pub proof fn law_operation_word_reads_back(operation: ClickHouseOperation, word: Seq<char>)
    ensures
        operation_of(operation_word(operation)) == Some(operation),
        operation_of(word) == Some(operation) <==> word == operation_word(operation),
        reads_catalog(operation) <==> operation_word(operation) != "query"@,
{
    reveal_strlit("query");
    reveal_strlit("list_tables");
    reveal_strlit("list_columns");
    assert("query"@.len() == 5);
    assert("list_tables"@.len() == 11);
    assert("list_columns"@.len() == 12);
}

impl ClickHouseOperation {
    /// Reads the word for an operation in a configuration.
    pub fn from_word(word: &str) -> (r: Option<Self>)
        ensures
            r == operation_of(word@),
    {
        if same_text(word, "query") {
            Some(ClickHouseOperation::Query)
        } else if same_text(word, "list_tables") {
            Some(ClickHouseOperation::ListTables)
        } else if same_text(word, "list_columns") {
            Some(ClickHouseOperation::ListColumns)
        } else {
            None
        }
    }

    /// The word for the operation in a configuration.
    pub fn as_str(self) -> (r: &'static str)
        ensures
            r@ == operation_word(self),
    {
        match self {
            ClickHouseOperation::Query => "query",
            ClickHouseOperation::ListTables => "list_tables",
            ClickHouseOperation::ListColumns => "list_columns",
        }
    }

    /// Whether the operation reads the catalog, which never changes anything.
    pub fn is_catalog(self) -> (r: bool)
        ensures
            r == reads_catalog(self),
    {
        match self {
            ClickHouseOperation::ListTables | ClickHouseOperation::ListColumns => true,
            ClickHouseOperation::Query => false,
        }
    }
}

/// How a listing is cut into pages.
#[derive(Debug, Clone, Copy, PartialEq, Eq, Structural)]
pub enum ListQueryMode {
    /// The first `?` is the cursor, NULL on the first page; the second the page
    /// size.
    Keyset,
    /// The first `?` is the page size; the second the offset.
    Offset,
}

impl Default for ListQueryMode {
    fn default() -> (r: Self)
        ensures
            r == ListQueryMode::Keyset,
    {
        ListQueryMode::Keyset
    }
}

/// A statement that lists resources, and how it is cut into pages.
#[derive(Debug, Clone, PartialEq)]
pub struct ListQueryConfig {
    /// One row for each resource.
    pub sql: String,
    /// How the listing is cut into pages.
    pub mode: ListQueryMode,
    /// The column that a keyset cursor follows.
    pub cursor_column: Option<String>,
    /// Rows on a page, from 1 to 1000.
    pub page_size: u64,
}

/// A statement that completes one template variable.
#[derive(Debug, Clone, PartialEq)]
pub struct CompletionConfig {
    /// Candidates in the first column; the single `?` is bound to the typed
    /// prefix.
    pub sql: String,
    /// Candidates that are handed out at most; 100 where there is none.
    pub max_results: Option<u32>,
}

/// Rows on a page unless the listing says otherwise.
pub fn default_list_page_size() -> (r: u64)
    ensures
        r == 100,
{
    100
}

/// Whether `s` is a safe SQL identifier: `[A-Za-z_][A-Za-z0-9_]*`.
pub open spec fn safe_identifier(s: Seq<char>) -> bool {
    &&& s.len() > 0
    &&& !('0' <= s[0] <= '9')
    &&& forall|i: int| 0 <= i < s.len() ==> is_word_char(#[trigger] s[i])
}

/// Why a listing is refused, if it is.
pub open spec fn list_query_error(cfg: ListQueryConfig) -> Option<Seq<char>> {
    let column = trimmed(text_or_empty(cfg.cursor_column));
    if is_blank(cfg.sql@) {
        Some("list_query.sql must not be empty"@)
    } else if cfg.page_size == 0 || cfg.page_size > 1_000 {
        Some(
            "list_query.page_size ("@ + decimal_text(cfg.page_size as nat)
                + ") must be in 1..=1000"@,
        )
    } else if cfg.mode == ListQueryMode::Keyset && column.len() == 0 {
        Some("list_query.cursor_column is required for mode: keyset"@)
    } else if cfg.mode == ListQueryMode::Keyset && !safe_identifier(column) {
        Some("list_query.cursor_column '"@ + column + "' is not a safe SQL identifier"@)
    } else {
        None
    }
}

/// Accepts a listing that has a statement, a page size from 1 to 1000 and, where
/// it follows a keyset, a cursor column that is a safe SQL identifier.
pub fn validate_list_query(cfg: &ListQueryConfig) -> (r: Result<(), String>)
    ensures
        verdict_is(r, list_query_error(*cfg)),
{
    if blank(cfg.sql.as_str()) {
        return Err("list_query.sql must not be empty".to_owned());
    }
    if cfg.page_size == 0 || cfg.page_size > 1_000 {
        let mut message = "list_query.page_size (".to_owned();
        append_decimal(&mut message, cfg.page_size as u128);
        message.append(") must be in 1..=1000");
        return Err(message);
    }
    if cfg.mode == ListQueryMode::Keyset {
        let column: &str = match &cfg.cursor_column {
            Some(name) => trim(name.as_str()),
            None => {
                return Err("list_query.cursor_column is required for mode: keyset".to_owned());
            },
        };
        if column.is_empty() {
            return Err("list_query.cursor_column is required for mode: keyset".to_owned());
        }
        if !is_safe_sql_identifier(column) {
            let mut message = "list_query.cursor_column '".to_owned();
            message.append(column);
            message.append("' is not a safe SQL identifier");
            return Err(message);
        }
    }
    Ok(())
}

/// Why a completion is refused, if it is.
pub open spec fn completion_error(name: Seq<char>, cfg: CompletionConfig) -> Option<Seq<char>> {
    if is_blank(cfg.sql@) {
        Some("variable_completions."@ + name + ".sql must not be empty"@)
    } else if bind_count(cfg.sql@) != 1 {
        Some(
            "variable_completions."@ + name
                + ".sql must reference exactly one `?` placeholder (bound to the typed prefix)"@,
        )
    } else {
        None
    }
}

/// Accepts a completion whose statement has exactly one `?` to bind.
pub fn validate_completion(name: &str, cfg: &CompletionConfig) -> (r: Result<(), String>)
    ensures
        verdict_is(r, completion_error(name@, *cfg)),
{
    if blank(cfg.sql.as_str()) {
        let mut message = "variable_completions.".to_owned();
        message.append(name);
        message.append(".sql must not be empty");
        return Err(message);
    }
    if count_bind_placeholders(cfg.sql.as_str()) != 1 {
        let mut message = "variable_completions.".to_owned();
        message.append(name);
        message.append(
            ".sql must reference exactly one `?` placeholder (bound to the typed prefix)",
        );
        return Err(message);
    }
    Ok(())
}

/// The number of `?` in `sql` that stand for a value: read from the left, `??`
/// is a literal question mark and stands for none.
pub open spec fn bind_count(sql: Seq<char>) -> nat
    decreases sql.len(),
{
    if sql.len() == 0 {
        0
    } else if sql[0] != '?' {
        bind_count(sql.skip(1))
    } else if sql.len() > 1 && sql[1] == '?' {
        bind_count(sql.skip(2))
    } else {
        1 + bind_count(sql.skip(1))
    }
}

/// Whether no question mark stands in `s`.
pub open spec fn no_mark(s: Seq<char>) -> bool {
    forall|i: int| 0 <= i < s.len() ==> #[trigger] s[i] != '?'
}

/// Text without a question mark adds no placeholder to the statement behind it.
pub(crate) proof fn lemma_count_behind(head: Seq<char>, rest: Seq<char>)
    requires
        no_mark(head),
    ensures
        bind_count(head + rest) == bind_count(rest),
    decreases head.len(),
{
    if head.len() == 0 {
        assert(head + rest =~= rest);
    } else {
        assert(head[0] != '?');
        assert((head + rest).skip(1) =~= head.skip(1) + rest);
        assert forall|i: int| 0 <= i < head.skip(1).len() implies #[trigger] head.skip(1)[i]
            != '?' by {
            assert(head[i + 1] != '?');
        }
        lemma_count_behind(head.skip(1), rest);
    }
}

/// A single question mark at the end of a piece of a statement is one placeholder,
/// where the next piece does not begin with one.
pub(crate) proof fn lemma_count_piece(piece: Seq<char>, rest: Seq<char>)
    requires
        piece.len() > 0,
        piece.last() == '?',
        no_mark(piece.drop_last()),
        rest.len() > 0 ==> rest[0] != '?',
    ensures
        bind_count(piece + rest) == 1 + bind_count(rest),
{
    let tail = seq!['?'] + rest;
    assert(piece + rest =~= piece.drop_last() + tail);
    lemma_count_behind(piece.drop_last(), tail);
    assert(tail.skip(1) =~= rest);
}

/// A statement in two parts has the placeholders of both, unless a question mark
/// ends the first part and another begins the second.
pub proof fn law_placeholders_add_up(first: Seq<char>, second: Seq<char>)
    requires
        first.len() == 0 || first.last() != '?' || second.len() == 0 || second[0] != '?',
    ensures
        bind_count(first + second) == bind_count(first) + bind_count(second),
    decreases first.len(),
{
    let whole = first + second;
    if first.len() == 0 {
        assert(whole =~= second);
    } else {
        let step: int = if first[0] == '?' && first.len() > 1 && first[1] == '?' {
            2
        } else {
            1
        };
        assert(whole.skip(step) =~= first.skip(step) + second);
        law_placeholders_add_up(first.skip(step), second);
    }
}

/// A row of question marks.
pub open spec fn marks(n: nat) -> Seq<char> {
    Seq::new(n, |i: int| '?')
}

/// Where question marks do meet between two parts of a statement, the whole row of
/// them counts: two by two they are literal, and one that is left over is a
/// placeholder.
pub proof fn law_row_of_marks_counts_its_odd_one(first: Seq<char>, n: nat, second: Seq<char>)
    requires
        first.len() == 0 || first.last() != '?',
        second.len() == 0 || second[0] != '?',
    ensures
        bind_count(first + marks(n) + second) == bind_count(first) + n % 2 + bind_count(second),
{
    lemma_row_of_marks(n, second);
    assert(first + marks(n) + second =~= first + (marks(n) + second));
    law_placeholders_add_up(first, marks(n) + second);
}

proof fn lemma_row_of_marks(n: nat, rest: Seq<char>)
    requires
        rest.len() == 0 || rest[0] != '?',
    ensures
        bind_count(marks(n) + rest) == n % 2 + bind_count(rest),
    decreases n,
{
    let whole = marks(n) + rest;
    if n == 0 {
        assert(whole =~= rest);
    } else if n == 1 {
        assert(whole.skip(1) =~= rest);
    } else {
        assert(whole.skip(2) =~= marks((n - 2) as nat) + rest);
        lemma_row_of_marks((n - 2) as nat, rest);
    }
}

/// A doubled question mark is a literal one: it stands for no value.
pub proof fn law_doubled_mark_is_literal(rest: Seq<char>)
    ensures
        bind_count(seq!['?', '?'] + rest) == bind_count(rest),
{
    assert((seq!['?', '?'] + rest).skip(2) =~= rest);
}

/// Counts the `?` placeholders of a statement, a doubled one being a literal
/// question mark.
pub fn count_bind_placeholders(sql: &str) -> (r: usize)
    ensures
        r == bind_count(sql@),
{
    let chars = chars_of(sql);
    let n: usize = chars.len();
    let mut i: usize = 0;
    let mut binds: usize = 0;
    assert(sql@.skip(0) =~= sql@);
    while i < n
        invariant
            i <= n,
            n == chars@.len(),
            chars@ == sql@,
            binds <= i,
            binds + bind_count(sql@.skip(i as int)) == bind_count(sql@),
        decreases n - i,
    {
        let ghost rest = sql@.skip(i as int);
        assert(rest.skip(1) =~= sql@.skip(i + 1));
        if chars[i] == '?' {
            if i + 1 < n && chars[i + 1] == '?' {
                assert(rest.skip(2) =~= sql@.skip(i + 2));
                i += 2;
                continue;
            }
            binds += 1;
        }
        i += 1;
    }
    assert(sql@.skip(n as int).len() == 0);
    binds
}

/// Whether `s` is a safe SQL identifier: `[A-Za-z_][A-Za-z0-9_]*`.
pub fn is_safe_sql_identifier(s: &str) -> (r: bool)
    ensures
        r == safe_identifier(s@),
{
    let chars = chars_of(s);
    let n: usize = chars.len();
    if n == 0 || ('0' <= chars[0] && chars[0] <= '9') {
        return false;
    }
    for i in 0..n
        invariant
            n == chars@.len(),
            chars@ == s@,
            forall|j: int| 0 <= j < i ==> is_word_char(#[trigger] s@[j]),
    {
        let c: char = chars[i];
        let word: bool = ('a' <= c && c <= 'z') || ('A' <= c && c <= 'Z') || ('0' <= c && c <= '9')
            || c == '_';
        if !word {
            assert(!is_word_char(s@[i as int]));
            return false;
        }
    }
    true
}

/// A check passes where no error is owed, and else is refused with exactly that
/// error.
pub proof fn law_verdicts_are_exact(verdict: Result<(), String>, message: Seq<char>)
    ensures
        verdict_is(verdict, None) <==> verdict is Ok,
        verdict_is(verdict, Some(message)) <==> (verdict is Err && verdict->Err_0@ == message),
{
}

/// The text of an optional setting is its own, and empty without one.
pub proof fn law_text_of_a_setting(value: Option<String>)
    ensures
        value matches Some(s) ==> text_or_empty(value) == s@,
        value is None ==> text_or_empty(value).len() == 0,
{
}

/// A statement without a question mark takes no value.
pub proof fn law_no_mark_no_placeholder(s: Seq<char>)
    requires
        forall|i: int| 0 <= i < s.len() ==> #[trigger] s[i] != '?',
    ensures
        bind_count(s) == 0,
{
    lemma_count_behind(s, Seq::empty());
    assert(s + Seq::<char>::empty() =~= s);
}

/// A listing is accepted where, and only where, it has a statement, a page of one to
/// a thousand rows and, by key, a cursor column that is one word beginning with no
/// digit.
pub proof fn law_listing_is_accepted(cfg: ListQueryConfig)
    ensures
        list_query_error(cfg) is None <==> ({
            let column = trimmed(text_or_empty(cfg.cursor_column));
            &&& !is_blank(cfg.sql@)
            &&& 1 <= cfg.page_size <= 1000
            &&& cfg.mode == ListQueryMode::Keyset ==> {
                &&& column.len() > 0
                &&& !(48 <= column[0] as u32 <= 57)
                &&& forall|i: int| 0 <= i < column.len() ==> is_word_char(#[trigger] column[i])
            }
        }),
{
}

/// Each fault of a listing has its error, in this order: no statement, the page size,
/// no cursor column, a cursor column that is not safe.
pub proof fn law_listing_faults_are_told(cfg: ListQueryConfig)
    ensures
        ({
            let column = trimmed(text_or_empty(cfg.cursor_column));
            let told = list_query_error(cfg);
            &&& is_blank(cfg.sql@) ==> told == Some("list_query.sql must not be empty"@)
            &&& !is_blank(cfg.sql@) && !(1 <= cfg.page_size <= 1000) ==> told == Some(
                "list_query.page_size ("@ + decimal_text(cfg.page_size as nat)
                    + ") must be in 1..=1000"@,
            )
            &&& !is_blank(cfg.sql@) && 1 <= cfg.page_size <= 1000 && cfg.mode
                == ListQueryMode::Keyset && is_blank(text_or_empty(cfg.cursor_column)) ==> told
                == Some("list_query.cursor_column is required for mode: keyset"@)
            &&& !is_blank(cfg.sql@) && 1 <= cfg.page_size <= 1000 && cfg.mode
                == ListQueryMode::Keyset && column.len() > 0 && told is Some ==> told == Some(
                "list_query.cursor_column '"@ + column + "' is not a safe SQL identifier"@,
            )
        }),
{
}

/// A completion is accepted where, and only where, it has a statement with exactly
/// one placeholder; else the error names the variable and the fault.
pub proof fn law_completion_is_accepted(name: Seq<char>, cfg: CompletionConfig)
    ensures
        completion_error(name, cfg) is None <==> !is_blank(cfg.sql@) && bind_count(cfg.sql@) == 1,
        is_blank(cfg.sql@) ==> completion_error(name, cfg) == Some(
            "variable_completions."@ + name + ".sql must not be empty"@,
        ),
        !is_blank(cfg.sql@) && bind_count(cfg.sql@) != 1 ==> completion_error(name, cfg) == Some(
            "variable_completions."@ + name
                + ".sql must reference exactly one `?` placeholder (bound to the typed prefix)"@,
        ),
{
}

/// Names ascend where, and only where, each comes before all that follow it.
pub proof fn law_ascending_names(spec: ClickHouseBackendSpec)
    ensures
        spec.well_formed() <==> {
            &&& forall|i: int, j: int|
                0 <= i < j < spec.query.settings@.len() ==> before(
                    (#[trigger] spec.query.settings@[i]).0@,
                    (#[trigger] spec.query.settings@[j]).0@,
                )
            &&& forall|i: int, j: int|
                0 <= i < j < spec.variable_completions@.len() ==> before(
                    (#[trigger] spec.variable_completions@[i]).0@,
                    (#[trigger] spec.variable_completions@[j]).0@,
                )
        },
{
    let settings = setting_names(spec.query.settings@);
    let variables = completion_names(spec.variable_completions@);
    assert(settings.len() == spec.query.settings@.len());
    assert(variables.len() == spec.variable_completions@.len());
    assert forall|i: int| 0 <= i < settings.len() implies settings[i] == (
    #[trigger] spec.query.settings@[i]).0@ by {}
    assert forall|i: int| 0 <= i < variables.len() implies variables[i] == (
    #[trigger] spec.variable_completions@[i]).0@ by {}
    if spec.well_formed() {
        assert forall|i: int, j: int| 0 <= i < j < spec.query.settings@.len() implies before(
            (#[trigger] spec.query.settings@[i]).0@,
            (#[trigger] spec.query.settings@[j]).0@,
        ) by {
            assert(before(settings[i], settings[j]));
        }
        assert forall|i: int, j: int| 0 <= i < j < spec.variable_completions@.len() implies before(
            (#[trigger] spec.variable_completions@[i]).0@,
            (#[trigger] spec.variable_completions@[j]).0@,
        ) by {
            assert(before(variables[i], variables[j]));
        }
    }
    if forall|i: int, j: int|
        0 <= i < j < spec.query.settings@.len() ==> before(
            (#[trigger] spec.query.settings@[i]).0@,
            (#[trigger] spec.query.settings@[j]).0@,
        ) {
        assert forall|i: int, j: int| 0 <= i < j < settings.len() implies before(
            #[trigger] settings[i],
            #[trigger] settings[j],
        ) by {
            assert(before(spec.query.settings@[i].0@, spec.query.settings@[j].0@));
        }
    }
    if forall|i: int, j: int|
        0 <= i < j < spec.variable_completions@.len() ==> before(
            (#[trigger] spec.variable_completions@[i]).0@,
            (#[trigger] spec.variable_completions@[j]).0@,
        ) {
        assert forall|i: int, j: int| 0 <= i < j < variables.len() implies before(
            #[trigger] variables[i],
            #[trigger] variables[j],
        ) by {
            assert(before(
                spec.variable_completions@[i].0@,
                spec.variable_completions@[j].0@,
            ));
        }
    }
}

/// A safe identifier is a word, not empty, that begins with no digit.
pub proof fn law_safe_identifiers(s: Seq<char>)
    ensures
        safe_identifier(s) <==> s.len() > 0 && !(48 <= s[0] as u32 <= 57) && (forall|i: int|
            0 <= i < s.len() ==> is_word_char(#[trigger] s[i])),
{
}

} // verus!
