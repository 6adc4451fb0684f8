//! Statements for the ClickHouse server and the rows that come back: catalog
//! queries, the prepared query that the driver sends, and the reading of a
//! `JSONEachRow` response.
use crate::driver::{
    bind_bool, bind_float, bind_int, bind_null, bind_text, bound_query, client_of, default_client,
    law_statement_is_sent_piece_by_piece, lemma_fill_rendered, lemma_rendered_bare, new_query,
    plain_pieces, query_of, query_with_option, rendered, slot_count, sql_literal, template_pieces,
    with_database, with_option, with_password, with_url, with_user, ClientView, QueryView, SqlPiece,
};
use crate::json::{is_object, json_each, json_of, json_parse, parse_text, JsonView};
use crate::params::{bind_views, BindView, ChBind};
use crate::text::{
    all_white, decimal, decimal_text, is_blank, is_white, law_blank_is_all_white,
    law_trimming_keeps_the_core, occurs, occurs_at, trim, trim_back, trim_front, trimmed,
};
use crate::types::{bind_count, lemma_count_behind, lemma_count_piece, no_mark};
use vstd::prelude::*;
use vstd::string::*;
use vstd::utf8::{
    decode_utf8, decode_utf8_split, encode_scalar, encode_utf8, encode_utf8_decode_utf8,
    encode_utf8_valid_utf8, is_ascii_chars, is_ascii_chars_encode_utf8, is_char_boundary,
    is_char_boundary_iff_not_is_continuation_byte, is_continuation_byte, length_of_first_scalar,
    valid_utf8,
};

verus! {

/// What came back from a query.
#[derive(Debug)]
pub struct QueryOutcome {
    /// The rows, up to the cap.
    pub rows: Vec<serde_json::Value>,
    /// Whether rows beyond the cap came back.
    pub truncated: bool,
    /// How many rows came back.
    pub row_count: usize,
}

/// A statement over ClickHouse's own tables with the values to bind, in order.
#[derive(Debug, Clone, PartialEq)]
pub struct CatalogQuery {
    pub sql: String,
    pub binds: Vec<ChBind>,
}

/// The columns that a listing of tables yields.
pub fn list_tables_columns() -> (r: Vec<&'static str>)
    ensures
        names_of(r@) == seq![
            "database"@,
            "name"@,
            "engine"@,
            "total_rows"@,
            "total_bytes"@,
        ],
{
    let names: Vec<&'static str> = vec!["database", "name", "engine", "total_rows", "total_bytes"];
    assert(names_of(names@) =~= seq![
        "database"@,
        "name"@,
        "engine"@,
        "total_rows"@,
        "total_bytes"@,
    ]);
    names
}

/// The columns that a listing of columns yields.
pub fn list_columns_columns() -> (r: Vec<&'static str>)
    ensures
        names_of(r@) == seq![
            "database"@,
            "table"@,
            "name"@,
            "type"@,
            "position"@,
            "default_kind"@,
        ],
{
    let names: Vec<&'static str> = vec![
        "database", "table", "name", "type", "position", "default_kind",
    ];
    assert(names_of(names@) =~= seq![
        "database"@,
        "table"@,
        "name"@,
        "type"@,
        "position"@,
        "default_kind"@,
    ]);
    names
}

/// The texts of a sequence of names.
pub open spec fn names_of(names: Seq<&str>) -> Seq<Seq<char>> {
    names.map_values(|name: &str| name@)
}

/// The text of an optional filter.
pub open spec fn filter_text(value: Option<&str>) -> Option<Seq<char>> {
    match value {
        Some(s) => Some(s@),
        None => None,
    }
}

/// A filter without the white space around it; none where nothing is left.
pub open spec fn effective_filter(value: Option<Seq<char>>) -> Option<Seq<char>> {
    match value {
        Some(s) => if is_blank(s) {
            None
        } else {
            Some(trimmed(s))
        },
        None => None,
    }
}

/// The values for an optional filter.
pub open spec fn filter_binds(filter: Option<Seq<char>>) -> Seq<BindView> {
    match filter {
        Some(s) => seq![BindView::Text(s)],
        None => Seq::empty(),
    }
}

/// A row limit as the driver binds it.
pub open spec fn limit_bind(max_rows: usize) -> BindView {
    BindView::Int((max_rows as i64) as int)
}

/// The statement that lists tables.
pub open spec fn list_tables_sql(by_database: bool) -> Seq<char> {
    "SELECT database, name, engine, total_rows, total_bytes FROM system.tables"@ + (if by_database {
        " WHERE database = ?"@
    } else {
        Seq::empty()
    }) + " ORDER BY database, name LIMIT ?"@
}

/// Builds the query that lists tables, of one database where a filter is given.
/// The filter is bound, never written into the statement.
pub fn build_list_tables_query(database: Option<&str>, max_rows: usize) -> (r: CatalogQuery)
    ensures
        r.sql@ == list_tables_sql(effective_filter(filter_text(database)) is Some),
        bind_views(r.binds@) == filter_binds(effective_filter(filter_text(database))).push(
            limit_bind(max_rows),
        ),
{
    let mut sql: String =
        "SELECT database, name, engine, total_rows, total_bytes FROM system.tables".to_owned();
    let mut binds: Vec<ChBind> = Vec::new();
    match nonempty(database) {
        Some(db) => {
            sql.append(" WHERE database = ?");
            binds.push(ChBind::Str(db.to_owned()));
        },
        None => {
            assert(sql@ + Seq::<char>::empty() =~= sql@);
        },
    }
    sql.append(" ORDER BY database, name LIMIT ?");
    binds.push(ChBind::Int(max_rows as i64));
    assert(bind_views(binds@) =~= filter_binds(effective_filter(filter_text(database))).push(
        limit_bind(max_rows),
    ));
    CatalogQuery { sql, binds }
}

/// The condition of a statement that lists columns.
pub open spec fn list_columns_condition(by_database: bool, by_table: bool) -> Seq<char> {
    if by_database && by_table {
        " WHERE database = ? AND table = ?"@
    } else if by_database {
        " WHERE database = ?"@
    } else if by_table {
        " WHERE table = ?"@
    } else {
        Seq::empty()
    }
}

/// The statement that lists columns.
pub open spec fn list_columns_sql(by_database: bool, by_table: bool) -> Seq<char> {
    "SELECT database, table, name, type, position, default_kind FROM system.columns"@
        + list_columns_condition(by_database, by_table)
        + " ORDER BY database, table, position LIMIT ?"@
}

/// Builds the query that lists columns, of one database and of one table where
/// filters are given. The filters are bound, never written into the statement.
pub fn build_list_columns_query(database: Option<&str>, table: Option<&str>, max_rows: usize) -> (r:
    CatalogQuery)
    ensures
        r.sql@ == list_columns_sql(
            effective_filter(filter_text(database)) is Some,
            effective_filter(filter_text(table)) is Some,
        ),
        bind_views(r.binds@) == (filter_binds(effective_filter(filter_text(database)))
            + filter_binds(effective_filter(filter_text(table)))).push(limit_bind(max_rows)),
{
    let mut sql: String =
        "SELECT database, table, name, type, position, default_kind FROM system.columns".to_owned();
    let mut binds: Vec<ChBind> = Vec::new();
    match (nonempty(database), nonempty(table)) {
        (Some(db), Some(tbl)) => {
            sql.append(" WHERE database = ? AND table = ?");
            binds.push(ChBind::Str(db.to_owned()));
            binds.push(ChBind::Str(tbl.to_owned()));
        },
        (Some(db), None) => {
            sql.append(" WHERE database = ?");
            binds.push(ChBind::Str(db.to_owned()));
        },
        (None, Some(tbl)) => {
            sql.append(" WHERE table = ?");
            binds.push(ChBind::Str(tbl.to_owned()));
        },
        (None, None) => {
            assert(sql@ + Seq::<char>::empty() =~= sql@);
        },
    }
    sql.append(" ORDER BY database, table, position LIMIT ?");
    binds.push(ChBind::Int(max_rows as i64));
    assert(bind_views(binds@) =~= (filter_binds(effective_filter(filter_text(database)))
        + filter_binds(effective_filter(filter_text(table)))).push(limit_bind(max_rows)));
    CatalogQuery { sql, binds }
}

/// Every statement that lists tables has one placeholder for each value that is
/// bound to it: one for the filter, where there is one, and one for the limit.
pub proof fn law_list_tables_placeholders(filter: Option<Seq<char>>, max_rows: usize)
    ensures
        bind_count(list_tables_sql(filter is Some)) == filter_binds(filter).push(
            limit_bind(max_rows),
        ).len(),
{
    reveal_strlit("SELECT database, name, engine, total_rows, total_bytes FROM system.tables");
    reveal_strlit(" WHERE database = ?");
    reveal_strlit(" ORDER BY database, name LIMIT ?");
    let head = "SELECT database, name, engine, total_rows, total_bytes FROM system.tables"@;
    let tail = " ORDER BY database, name LIMIT ?"@;
    lemma_count_piece(tail, Seq::empty());
    assert(tail + Seq::empty() =~= tail);
    if filter is Some {
        let condition = " WHERE database = ?"@;
        lemma_count_piece(condition, tail);
        lemma_count_behind(head, condition + tail);
        assert(list_tables_sql(true) =~= head + (condition + tail));
    } else {
        lemma_count_behind(head, tail);
        assert(list_tables_sql(false) =~= head + tail);
    }
}

/// Every statement that lists columns has one placeholder for each value that is
/// bound to it: one for each filter that there is, and one for the limit.
pub proof fn law_list_columns_placeholders(
    database: Option<Seq<char>>,
    table: Option<Seq<char>>,
    max_rows: usize,
)
    ensures
        bind_count(list_columns_sql(database is Some, table is Some)) == (filter_binds(database)
            + filter_binds(table)).push(limit_bind(max_rows)).len(),
{
    reveal_strlit("SELECT database, table, name, type, position, default_kind FROM system.columns");
    reveal_strlit(" ORDER BY database, table, position LIMIT ?");
    let head = "SELECT database, table, name, type, position, default_kind FROM system.columns"@;
    let tail = " ORDER BY database, table, position LIMIT ?"@;
    lemma_count_piece(tail, Seq::empty());
    assert(tail + Seq::empty() =~= tail);
    let condition = list_columns_condition(database is Some, table is Some);
    if database is Some && table is Some {
        reveal_strlit(" WHERE database = ? AND table = ?");
        let first = condition.take(19);
        let second = condition.skip(19);
        lemma_count_piece(second, tail);
        lemma_count_piece(first, second + tail);
        assert(condition + tail =~= first + (second + tail));
    } else if database is Some {
        reveal_strlit(" WHERE database = ?");
        lemma_count_piece(condition, tail);
    } else if table is Some {
        reveal_strlit(" WHERE table = ?");
        lemma_count_piece(condition, tail);
    } else {
        assert(condition + tail =~= tail);
    }
    lemma_count_behind(head, condition + tail);
    assert(list_columns_sql(database is Some, table is Some) =~= head + (condition + tail));
}

/// A filter of nothing but white space is no filter.
pub proof fn law_blank_filter_is_no_filter(s: Seq<char>)
    requires
        is_blank(s),
    ensures
        effective_filter(Some(s)) == effective_filter(None),
{
}

/// A filter without the white space around it; none where nothing is left.
pub fn nonempty(value: Option<&str>) -> (r: Option<&str>)
    ensures
        filter_text(r) == effective_filter(filter_text(value)),
{
    match value {
        Some(s) => {
            let t: &str = trim(s);
            if t.is_empty() {
                None
            } else {
                Some(t)
            }
        },
        None => None,
    }
}

/// The configuration of the client for a binding.
pub open spec fn binding_client(
    url: Seq<char>,
    database: Option<Seq<char>>,
    username: Option<Seq<char>>,
    password: Option<Seq<char>>,
) -> ClientView {
    ClientView { url, database, user: username, password, token: false, options: Map::empty() }
}

/// Builds the client for a binding. No socket is opened.
pub fn build_client(
    url: &str,
    database: Option<&str>,
    username: Option<&str>,
    password: Option<&str>,
) -> (r: clickhouse::Client)
    ensures
        client_of(r) == binding_client(
            url@,
            filter_text(database),
            filter_text(username),
            filter_text(password),
        ),
{
    let mut client = with_url(default_client(), url);
    if let Some(db) = database {
        client = with_database(client, db);
    }
    if let Some(user) = username {
        client = with_user(client, user);
    }
    if let Some(pw) = password {
        client = with_password(client, pw);
    }
    client
}

/// Binds one value to the next `?` of a query.
pub fn bind_value(query: clickhouse::query::Query, value: &ChBind) -> (r: clickhouse::query::Query)
    ensures
        query_of(r) == bound_query(query_of(query), value@),
{
    match value {
        ChBind::Null => bind_null(query),
        ChBind::Int(i) => bind_int(query, *i),
        ChBind::Float(f) => bind_float(query, f),
        ChBind::Bool(b) => bind_bool(query, *b),
        ChBind::Str(s) => bind_text(query, s.as_str()),
    }
}

/// A query with values bound to its slots, in order.
pub open spec fn bind_all(query: QueryView, values: Seq<BindView>) -> QueryView
    decreases values.len(),
{
    if values.len() == 0 {
        query
    } else {
        bound_query(bind_all(query, values.drop_last()), values.last())
    }
}

/// A query with settings, a later one in place of an earlier one of the same
/// name.
pub open spec fn with_settings(query: QueryView, settings: Seq<(Seq<char>, Seq<char>)>) -> QueryView
    decreases settings.len(),
{
    if settings.len() == 0 {
        query
    } else {
        query_with_option(
            with_settings(query, settings.drop_last()),
            settings.last().0,
            settings.last().1,
        )
    }
}

/// The texts of a sequence of settings.
pub open spec fn setting_texts(settings: Seq<(String, String)>) -> Seq<(Seq<char>, Seq<char>)> {
    settings.map_values(|s: (String, String)| (s.0@, s.1@))
}

/// The server's budget in seconds for a number of milliseconds: rounded up, and
/// never zero, which the server takes for no limit.
pub open spec fn budget_seconds(timeout_ms: nat) -> nat {
    if timeout_ms == 0 {
        1
    } else {
        (timeout_ms + 999) / 1000
    }
}

/// The query that is sent: the statement with its values, the time budget, and
/// then the operator's settings.
pub open spec fn request_view(
    client: ClientView,
    statement: Seq<char>,
    values: Seq<BindView>,
    timeout_ms: nat,
    settings: Seq<(Seq<char>, Seq<char>)>,
) -> QueryView {
    with_settings(
        query_with_option(
            bind_all(QueryView { client, sql: Some(template_pieces(statement)) }, values),
            "max_execution_time"@,
            decimal_text(budget_seconds(timeout_ms)),
        ),
        settings,
    )
}

/// The SQL literals of a sequence of values.
pub open spec fn literals(values: Seq<BindView>) -> Seq<Seq<char>> {
    values.map_values(|v: BindView| sql_literal(v))
}

/// Values bound to a statement go into its `?` in order, the first value into the
/// first, and every other character of the statement is sent as it stands; where
/// there are more values than `?`, nothing is sent.
pub proof fn law_values_fill_slots_in_order(
    client: ClientView,
    statement: Seq<char>,
    values: Seq<BindView>,
)
    ensures
        bind_all(QueryView { client, sql: Some(template_pieces(statement)) }, values).sql == (
        if values.len() <= slot_count(statement) {
            Some(rendered(statement, literals(values)))
        } else {
            None
        }),
    decreases values.len(),
{
    if values.len() == 0 {
        lemma_rendered_bare(statement);
        assert(literals(values) =~= Seq::empty());
    } else {
        let earlier = values.drop_last();
        law_values_fill_slots_in_order(client, statement, earlier);
        assert(literals(values) =~= literals(earlier).push(sql_literal(values.last())));
        if earlier.len() <= slot_count(statement) {
            lemma_fill_rendered(statement, literals(earlier), sql_literal(values.last()));
        }
    }
}

/// The placeholders of a statement are the slots that the driver finds in it,
/// where it does not ask for `?fields`.
pub proof fn law_placeholders_are_slots(statement: Seq<char>)
    requires
        !occurs(statement, "?fields"@),
    ensures
        slot_count(statement) == bind_count(statement),
    decreases statement.len(),
{
    reveal_strlit("?fields");
    reveal_strlit("fields");
    if statement.len() > 0 {
        let step: int = if statement[0] == '?' && statement.len() > 1 && statement[1] == '?' {
            2
        } else {
            1
        };
        let rest = statement.skip(step);
        assert forall|at: int| !occurs_at(rest, "?fields"@, at) by {
            if occurs_at(rest, "?fields"@, at) {
                assert(statement.subrange(at + step, at + step + 7) =~= rest.subrange(at, at + 7));
                assert(occurs_at(statement, "?fields"@, at + step));
            }
        }
        law_placeholders_are_slots(rest);
        if statement[0] == '?' && statement.len() > 6 && statement.subrange(1, 7) == "fields"@ {
            assert(statement.subrange(0, 7) =~= seq!['?'] + statement.subrange(1, 7));
            assert("?fields"@ =~= seq!['?'] + "fields"@);
            assert(occurs_at(statement, "?fields"@, 0));
        }
    }
}

/// Bound values reach neither the address nor the credentials nor the settings
/// under which a query is sent.
pub proof fn law_values_leave_the_client_alone(query: QueryView, values: Seq<BindView>)
    ensures
        bind_all(query, values).client == query.client,
    decreases values.len(),
{
    if values.len() > 0 {
        law_values_leave_the_client_alone(query, values.drop_last());
    }
}

/// The value of a setting after `settings` were made, where it had the value
/// `before`: the last one that was made under that name, if any was.
pub open spec fn last_setting(
    before: Option<Seq<char>>,
    settings: Seq<(Seq<char>, Seq<char>)>,
    name: Seq<char>,
) -> Option<Seq<char>>
    decreases settings.len(),
{
    if settings.len() == 0 {
        before
    } else if settings.last().0 == name {
        Some(settings.last().1)
    } else {
        last_setting(before, settings.drop_last(), name)
    }
}

/// The value of a setting of a query, if it has one.
pub open spec fn setting_of(query: QueryView, name: Seq<char>) -> Option<Seq<char>> {
    if query.client.options.dom().contains(name) {
        Some(query.client.options[name])
    } else {
        None
    }
}

proof fn lemma_with_settings(
    query: QueryView,
    settings: Seq<(Seq<char>, Seq<char>)>,
    name: Seq<char>,
)
    ensures
        setting_of(with_settings(query, settings), name) == last_setting(
            setting_of(query, name),
            settings,
            name,
        ),
        with_settings(query, settings).sql == query.sql,
    decreases settings.len(),
{
    if settings.len() > 0 {
        lemma_with_settings(query, settings.drop_last(), name);
    }
}

/// A setting of the operator has the last word, over the time budget too; without
/// one of its name, the budget stands. The text of the query is that of the
/// statement with its values.
pub proof fn law_operator_settings_win(
    client: ClientView,
    statement: Seq<char>,
    values: Seq<BindView>,
    timeout_ms: nat,
    settings: Seq<(Seq<char>, Seq<char>)>,
    name: Seq<char>,
)
    ensures
        setting_of(request_view(client, statement, values, timeout_ms, settings), name)
            == last_setting(
            if name == "max_execution_time"@ {
                Some(decimal_text(budget_seconds(timeout_ms)))
            } else if client.options.dom().contains(name) {
                Some(client.options[name])
            } else {
                None
            },
            settings,
            name,
        ),
        request_view(client, statement, values, timeout_ms, settings).sql == bind_all(
            QueryView { client, sql: Some(template_pieces(statement)) },
            values,
        ).sql,
{
    let bound = bind_all(QueryView { client, sql: Some(template_pieces(statement)) }, values);
    law_values_leave_the_client_alone(
        QueryView { client, sql: Some(template_pieces(statement)) },
        values,
    );
    lemma_with_settings(
        query_with_option(
            bound,
            "max_execution_time"@,
            decimal_text(budget_seconds(timeout_ms)),
        ),
        settings,
        name,
    );
}

/// Where no name is set twice, each setting has the value that was made under its
/// name.
pub(crate) proof fn lemma_each_setting_stands(
    before: Option<Seq<char>>,
    settings: Seq<(Seq<char>, Seq<char>)>,
    i: int,
)
    requires
        0 <= i < settings.len(),
        forall|a: int, b: int|
            0 <= a < b < settings.len() ==> (#[trigger] settings[a]).0 != (#[trigger] settings[b]).0,
    ensures
        last_setting(before, settings, settings[i].0) == Some(settings[i].1),
    decreases settings.len(),
{
    if i < settings.len() - 1 {
        let earlier = settings.drop_last();
        assert(settings[i].0 != settings[settings.len() - 1].0);
        assert forall|a: int, b: int| 0 <= a < b < earlier.len() implies (#[trigger] earlier[a]).0
            != (#[trigger] earlier[b]).0 by {
            assert(settings[a].0 != settings[b].0);
        }
        lemma_each_setting_stands(before, earlier, i);
    }
}

/// The settings under which a query is sent are the operator's: no statement and no
/// bound value changes them.
pub proof fn law_calls_cannot_change_settings(
    client: ClientView,
    statement: Seq<char>,
    values: Seq<BindView>,
    other_statement: Seq<char>,
    other_values: Seq<BindView>,
    timeout_ms: nat,
    settings: Seq<(Seq<char>, Seq<char>)>,
)
    ensures
        request_view(client, statement, values, timeout_ms, settings).client == request_view(
            client,
            other_statement,
            other_values,
            timeout_ms,
            settings,
        ).client,
{
    let a = QueryView { client, sql: Some(template_pieces(statement)) };
    let b = QueryView { client, sql: Some(template_pieces(other_statement)) };
    law_values_leave_the_client_alone(a, values);
    law_values_leave_the_client_alone(b, other_values);
    let budget = decimal_text(budget_seconds(timeout_ms));
    lemma_settings_same_client(
        query_with_option(bind_all(a, values), "max_execution_time"@, budget),
        query_with_option(bind_all(b, other_values), "max_execution_time"@, budget),
        settings,
    );
}

proof fn lemma_settings_same_client(
    a: QueryView,
    b: QueryView,
    settings: Seq<(Seq<char>, Seq<char>)>,
)
    requires
        a.client == b.client,
    ensures
        with_settings(a, settings).client == with_settings(b, settings).client,
    decreases settings.len(),
{
    if settings.len() > 0 {
        lemma_settings_same_client(a, b, settings.drop_last());
    }
}

/// The budget in seconds covers the milliseconds of the call, by less than a
/// second, and is never zero.
pub proof fn law_budget_rounds_up(timeout_ms: nat)
    ensures
        budget_seconds(timeout_ms) >= 1,
        timeout_ms <= 1000 ==> budget_seconds(timeout_ms) == 1,
        budget_seconds(timeout_ms) * 1000 >= timeout_ms,
        timeout_ms > 0 ==> budget_seconds(timeout_ms) * 1000 < timeout_ms + 1000,
{
}

/// A query that is ready to be sent.
pub struct PreparedQuery {
    pub query: clickhouse::query::Query,
    /// Fetch rows, in a request that the server holds to reading. Otherwise
    /// execute it for its effect, which yields no rows.
    pub fetches: bool,
}

/// Prepares a statement for the server. The settings come after the time budget,
/// so that one of the same name takes its place.
pub fn prepare_query(
    client: &clickhouse::Client,
    statement: &str,
    bound: &[ChBind],
    read_only: bool,
    timeout_ms: u64,
    settings: &[(String, String)],
) -> (r: PreparedQuery)
    ensures
        query_of(r.query) == request_view(
            client_of(*client),
            statement@,
            bind_views(bound@),
            timeout_ms as nat,
            setting_texts(settings@),
        ),
        r.fetches == read_only,
{
    let mut query = new_query(client, statement);
    let ghost start = query_of(query);
    let n: usize = bound.len();
    for i in 0..n
        invariant
            n == bound@.len(),
            query_of(query) == bind_all(start, bind_views(bound@.take(i as int))),
    {
        query = bind_value(query, &bound[i]);
        proof {
            let now = bind_views(bound@.take(i + 1));
            assert(now.drop_last() =~= bind_views(bound@.take(i as int)));
            assert(now.last() == bound@[i as int]@);
        }
    }
    assert(bound@.take(n as int) =~= bound@);
    let seconds: u128 = if timeout_ms == 0 {
        1
    } else {
        (timeout_ms as u128 + 999) / 1000
    };
    query = with_option(query, "max_execution_time", decimal(seconds).as_str());
    let ghost budgeted = query_of(query);
    let m: usize = settings.len();
    for i in 0..m
        invariant
            m == settings@.len(),
            query_of(query) == with_settings(budgeted, setting_texts(settings@.take(i as int))),
    {
        query = with_option(query, settings[i].0.as_str(), settings[i].1.as_str());
        proof {
            let now = setting_texts(settings@.take(i + 1));
            assert(now.drop_last() =~= setting_texts(settings@.take(i as int)));
            assert(now.last() == (settings@[i as int].0@, settings@[i as int].1@));
        }
    }
    assert(settings@.take(m as int) =~= settings@);
    PreparedQuery { query, fetches: read_only }
}

/// Why the driver gave no response.
#[derive(Debug, Clone)]
pub enum DriverFailure {
    /// The query was not sent or was refused.
    Query(String),
    /// The response could not be read to its end.
    Response(String),
    /// The time of the call ran out.
    TimedOut,
}

/// What is said of a call to which the driver gave no response.
pub open spec fn failure_text(failure: DriverFailure) -> Seq<char> {
    match failure {
        DriverFailure::Query(e) => "ClickHouse query failed: "@ + e@,
        DriverFailure::Response(e) => "ClickHouse response read failed: "@ + e@,
        DriverFailure::TimedOut => "ClickHouse call timed out"@,
    }
}

impl DriverFailure {
    /// What is said of a call to which the driver gave no response.
    pub fn message(&self) -> (r: String)
        ensures
            r@ == failure_text(*self),
    {
        match self {
            DriverFailure::Query(e) => "ClickHouse query failed: ".to_owned().concat(e.as_str()),
            DriverFailure::Response(e) => "ClickHouse response read failed: ".to_owned().concat(
                e.as_str(),
            ),
            DriverFailure::TimedOut => "ClickHouse call timed out".to_owned(),
        }
    }
}

impl QueryOutcome {
    /// The outcome without rows: that of a statement executed for its effect, and
    /// the one that reading a response starts from.
    pub fn empty() -> (r: Self)
        ensures
            r.rows@.len() == 0,
            !r.truncated,
            r.row_count == 0,
    {
        QueryOutcome { rows: Vec::new(), truncated: false, row_count: 0 }
    }
}

/// What `std::str::from_utf8` says of bytes that are not UTF-8.
pub uninterp spec fn utf8_error_text(bytes: Seq<u8>) -> Seq<char>;

/// Calls `std::str::from_utf8`; an error is handed on as its text.
#[verifier::external_body]
fn utf8_text(bytes: &[u8]) -> (r: Result<&str, String>)
    ensures
        match r {
            Ok(decoded) => valid_utf8(bytes@) && decoded@ == decode_utf8(bytes@),
            Err(message) => !valid_utf8(bytes@) && message@ == utf8_error_text(bytes@),
        },
{
    std::str::from_utf8(bytes).map_err(|e| e.to_string())
}

/// A line feed is one byte in UTF-8, so that text without that byte holds none.
proof fn lemma_line_feed_is_a_byte(chars: Seq<char>)
    requires
        forall|j: int| 0 <= j < encode_utf8(chars).len() ==> #[trigger] encode_utf8(chars)[j] != 10,
    ensures
        !chars.contains('\n'),
    decreases chars.len(),
{
    if chars.len() > 0 {
        let first = encode_scalar(chars[0] as u32);
        let rest = encode_utf8(chars.drop_first());
        let whole = encode_utf8(chars);
        assert forall|j: int| 0 <= j < rest.len() implies #[trigger] rest[j] != 10 by {
            assert(whole[first.len() + j] == rest[j]);
        }
        lemma_line_feed_is_a_byte(chars.drop_first());
        if chars[0] == '\n' {
            lemma_line_feed_bytes();
            assert(whole[0] == first[0]);
        }
        assert forall|k: int| 0 <= k < chars.len() implies chars[k] != '\n' by {
            if k > 0 {
                assert(chars.drop_first()[k - 1] == chars[k]);
                assert(chars.drop_first().contains(chars[k]));
            }
        }
    }
}

/// The bytes of a line feed.
proof fn lemma_line_feed_bytes()
    ensures
        encode_scalar('\n' as u32) == seq![10u8],
        encode_utf8(seq!['\n']) == seq![10u8],
{
    let feed = seq!['\n'];
    assert(is_ascii_chars(feed));
    is_ascii_chars_encode_utf8(feed);
    assert(encode_utf8(feed) =~= seq![10u8]);
    reveal_with_fuel(encode_utf8, 2);
    assert(feed.drop_first() =~= Seq::<char>::empty());
    assert(encode_utf8(feed) =~= encode_scalar('\n' as u32));
}

/// The text before the first line feed and the text after it, where there is one.
fn cut_line(s: &str) -> (r: Option<(&str, &str)>)
    ensures
        match r {
            Some((line, rest)) => s@ == line@.push('\n') + rest@ && !line@.contains('\n'),
            None => !s@.contains('\n'),
        },
{
    let bytes: &[u8] = s.as_bytes();
    let n: usize = bytes.len();
    let ghost all = encode_utf8(s@);
    proof {
        encode_utf8_valid_utf8(s@);
        encode_utf8_decode_utf8(s@);
    }
    for i in 0..n
        invariant
            n == all.len(),
            bytes@ == all,
            all == encode_utf8(s@),
            valid_utf8(all),
            decode_utf8(all) == s@,
            forall|j: int| 0 <= j < i ==> #[trigger] all[j] != 10,
    {
        if bytes[i] == 10 {
            proof {
                is_char_boundary_iff_not_is_continuation_byte(all, i as int);
                assert(!is_continuation_byte(10u8));
                decode_utf8_split(all, i as int);
            }
            let (line, tail): (&str, &str) = s.split_at(i);
            let ghost behind = encode_utf8(tail@);
            proof {
                encode_utf8_decode_utf8(line@);
                encode_utf8_decode_utf8(tail@);
                encode_utf8_valid_utf8(tail@);
                assert(behind[0] == 10);
                reveal_with_fuel(is_char_boundary, 3);
                assert(length_of_first_scalar(behind) == 1);
                decode_utf8_split(behind, 1);
            }
            let (feed, rest): (&str, &str) = tail.split_at(1);
            proof {
                encode_utf8_decode_utf8(feed@);
                encode_utf8_decode_utf8(rest@);
                lemma_line_feed_bytes();
                assert(encode_utf8(feed@) =~= seq![10u8]);
                encode_utf8_decode_utf8(seq!['\n']);
                assert(s@ =~= line@.push('\n') + rest@);
                assert forall|j: int| 0 <= j < encode_utf8(line@).len() implies #[trigger] encode_utf8(
                    line@,
                )[j] != 10 by {
                    assert(encode_utf8(line@)[j] == all[j]);
                }
                lemma_line_feed_is_a_byte(line@);
            }
            return Some((line, rest));
        }
    }
    proof {
        lemma_line_feed_is_a_byte(s@);
    }
    None
}

/// The length of the first line of `s`.
pub open spec fn line_length(s: Seq<char>) -> nat
    decreases s.len(),
{
    if s.len() == 0 || s[0] == '\n' {
        0
    } else {
        1 + line_length(s.skip(1))
    }
}

/// The lines of `s` on which something stands, without the white space around
/// them.
pub open spec fn filled_lines(s: Seq<char>) -> Seq<Seq<char>>
    decreases s.len(),
    via filled_lines_decreases
{
    let end = line_length(s) as int;
    let line = trimmed(s.take(end));
    let later = if end < s.len() {
        filled_lines(s.skip(end + 1))
    } else {
        Seq::empty()
    };
    if line.len() == 0 {
        later
    } else {
        seq![line] + later
    }
}

#[via_fn]
proof fn filled_lines_decreases(s: Seq<char>) {
}

/// The first line ends before the first line feed.
proof fn lemma_line_length(s: Seq<char>, line: Seq<char>)
    requires
        line.len() <= s.len(),
        s.take(line.len() as int) == line,
        !line.contains('\n'),
        line.len() == s.len() || s[line.len() as int] == '\n',
    ensures
        line_length(s) == line.len(),
    decreases s.len(),
{
    if line.len() > 0 {
        assert(line[0] == s[0]);
        assert(line.contains(line[0]));
        assert(s.skip(1).take(line.len() - 1) =~= line.skip(1));
        assert forall|i: int| 0 <= i < line.len() - 1 implies line.skip(1)[i] != '\n' by {
            assert(line.contains(line[i + 1]));
        }
        lemma_line_length(s.skip(1), line.skip(1));
    }
}

/// Why a row is refused, if it is: `line` is its text, `parsed` what became of
/// reading it.
pub open spec fn row_error(line: Seq<char>, parsed: Result<JsonView, Seq<char>>) -> Option<
    Seq<char>,
> {
    match parsed {
        Err(message) => Some("ClickHouse JSONEachRow parse failed: "@ + message),
        Ok(JsonView::Fields(_)) => None,
        Ok(_) => Some("ClickHouse JSONEachRow row is not a JSON object: "@ + line),
    }
}

/// The first reason for which one of the rows is refused, if any is.
pub open spec fn first_row_error(lines: Seq<Seq<char>>) -> Option<Seq<char>>
    decreases lines.len(),
{
    if lines.len() == 0 {
        None
    } else {
        match row_error(lines[0], json_parse(lines[0])) {
            Some(message) => Some(message),
            None => first_row_error(lines.skip(1)),
        }
    }
}

/// The documents of a sequence of lines.
pub open spec fn line_documents(lines: Seq<Seq<char>>) -> Seq<JsonView> {
    lines.map_values(|line: Seq<char>| json_parse(line)->Ok_0)
}

/// Why a response is refused, if it is.
pub open spec fn response_error(bytes: Seq<u8>) -> Option<Seq<char>> {
    if !valid_utf8(bytes) {
        Some("ClickHouse response is not valid UTF-8: "@ + utf8_error_text(bytes))
    } else {
        first_row_error(filled_lines(decode_utf8(bytes)))
    }
}

/// Whether an outcome holds `documents`, cut off at `max_rows`.
pub open spec fn outcome_of(
    outcome: QueryOutcome,
    documents: Seq<JsonView>,
    max_rows: nat,
) -> bool {
    &&& json_each(outcome.rows@) == (if documents.len() <= max_rows {
        documents
    } else {
        documents.take(max_rows as int)
    })
    &&& outcome.truncated == (documents.len() > max_rows)
    &&& outcome.row_count == documents.len()
}

/// Takes one row into an outcome: `line` is its text, `parsed` what became of
/// reading it. A row beyond the cap is counted and dropped.
pub fn accept_row(
    outcome: &mut QueryOutcome,
    max_rows: usize,
    line: &str,
    parsed: Result<serde_json::Value, String>,
) -> (r: Result<(), String>)
    requires
        old(outcome).row_count < usize::MAX,
    ensures
        match parsed {
            Ok(value) => match row_error(line@, Ok(json_of(value))) {
                None => {
                    &&& r is Ok
                    &&& final(outcome).row_count == old(outcome).row_count + 1
                    &&& final(outcome).rows@ == (if old(outcome).rows@.len() >= max_rows {
                        old(outcome).rows@
                    } else {
                        old(outcome).rows@.push(value)
                    })
                    &&& final(outcome).truncated == (old(outcome).truncated
                        || old(outcome).rows@.len() >= max_rows)
                },
                Some(message) => {
                    &&& r matches Err(given)
                    &&& given@ == message
                    &&& *final(outcome) == *old(outcome)
                },
            },
            Err(e) => {
                &&& r matches Err(given)
                &&& Some(given@) == row_error(line@, Err(e@))
                &&& *final(outcome) == *old(outcome)
            },
        },
{
    match parsed {
        Ok(value) => {
            if !is_object(&value) {
                return Err(
                    "ClickHouse JSONEachRow row is not a JSON object: ".to_owned().concat(line),
                );
            }
            outcome.row_count = outcome.row_count + 1;
            if outcome.rows.len() >= max_rows {
                outcome.truncated = true;
            } else {
                outcome.rows.push(value);
            }
            Ok(())
        },
        Err(e) => Err("ClickHouse JSONEachRow parse failed: ".to_owned().concat(e.as_str())),
    }
}

/// One more document in an outcome.
proof fn lemma_outcome_step(
    before: QueryOutcome,
    after: QueryOutcome,
    documents: Seq<JsonView>,
    value: serde_json::Value,
    max_rows: nat,
)
    requires
        outcome_of(before, documents, max_rows),
        after.row_count == before.row_count + 1,
        after.rows@ == (if before.rows@.len() >= max_rows {
            before.rows@
        } else {
            before.rows@.push(value)
        }),
        after.truncated == (before.truncated || before.rows@.len() >= max_rows),
    ensures
        outcome_of(after, documents.push(json_of(value)), max_rows),
{
    assert(json_each(before.rows@).len() == before.rows@.len());
    if documents.len() < max_rows {
        assert(json_each(after.rows@) =~= json_each(before.rows@).push(json_of(value)));
    } else {
        assert(documents.push(json_of(value)).take(max_rows as int) =~= documents.take(
            max_rows as int,
        ));
        assert(documents.take(documents.len() as int) =~= documents);
    }
}

/// Reads a `JSONEachRow` response: one JSON object on each line that is not
/// blank. At most `max_rows` rows are kept; all are counted.
pub fn parse_json_each_row(bytes: &[u8], max_rows: usize) -> (r: Result<QueryOutcome, String>)
    ensures
        match r {
            Ok(outcome) => {
                &&& response_error(bytes@) is None
                &&& outcome_of(
                    outcome,
                    line_documents(filled_lines(decode_utf8(bytes@))),
                    max_rows as nat,
                )
            },
            Err(message) => response_error(bytes@) == Some(message@),
        },
{
    let decoded: &str = match utf8_text(bytes) {
        Ok(s) => s,
        Err(e) => {
            return Err("ClickHouse response is not valid UTF-8: ".to_owned().concat(e.as_str()));
        },
    };
    let ghost lines = filled_lines(decoded@);
    let ghost mut seen: Seq<Seq<char>> = Seq::empty();
    let mut outcome = QueryOutcome::empty();
    let mut rest: &str = decoded;
    let mut more: bool = true;
    let total: usize = decoded.unicode_len();
    proof {
        assert(seen + filled_lines(rest@) =~= lines);
        assert(json_each(outcome.rows@) =~= line_documents(seen));
    }
    while more
        invariant
            lines == filled_lines(decoded@),
            valid_utf8(bytes@),
            decoded@ == decode_utf8(bytes@),
            total == decoded@.len(),
            more ==> seen + filled_lines(rest@) == lines,
            more ==> first_row_error(lines) == first_row_error(filled_lines(rest@)),
            more ==> seen.len() + rest@.len() <= total,
            !more ==> seen == lines && first_row_error(lines) is None,
            outcome_of(outcome, line_documents(seen), max_rows as nat),
        decreases (if more { rest@.len() + 1 } else { 0 }),
    {
        let (line, next): (&str, Option<&str>) = match cut_line(rest) {
            Some((line, next)) => (line, Some(next)),
            None => (rest, None),
        };
        let row: &str = trim(line);
        let ghost later = match next {
            Some(s) => filled_lines(s@),
            None => Seq::<Seq<char>>::empty(),
        };
        proof {
            assert(rest@.take(line@.len() as int) =~= line@);
            lemma_line_length(rest@, line@);
            if let Some(s) = next {
                assert(rest@.skip(line@.len() as int + 1) =~= s@);
            }
            assert(filled_lines(rest@) == (if row@.len() == 0 {
                later
            } else {
                seq![row@] + later
            }));
            lemma_trimmed_length(line@);
        }
        if !row.is_empty() {
            let ghost before = outcome;
            let ghost documents = line_documents(seen);
            let parsed = parse_text(row);
            let ghost reading = parsed;
            proof {
                let here = filled_lines(rest@);
                assert(here[0] == row@);
                assert(here.skip(1) =~= later);
                assert(seen.push(row@) + later =~= seen + here);
                assert(seen.len() == outcome.row_count);
            }
            match accept_row(&mut outcome, max_rows, row, parsed) {
                Ok(_) => {},
                Err(message) => {
                    return Err(message);
                },
            }
            proof {
                lemma_outcome_step(
                    before,
                    outcome,
                    documents,
                    reading->Ok_0,
                    max_rows as nat,
                );
                assert(line_documents(seen.push(row@)) =~= documents.push(
                    json_of(reading->Ok_0),
                ));
                seen = seen.push(row@);
            }
        }
        match next {
            Some(s) => {
                rest = s;
            },
            None => {
                more = false;
                assert(seen + later =~= seen);
                assert(first_row_error(later) is None);
            },
        }
    }
    Ok(outcome)
}

/// An outcome counts every row and keeps as many as the cap allows; it is marked as
/// cut off where, and only where, it keeps fewer than it counts.
pub proof fn law_outcome_counts_every_row(
    outcome: QueryOutcome,
    documents: Seq<JsonView>,
    max_rows: nat,
)
    requires
        outcome_of(outcome, documents, max_rows),
    ensures
        outcome.row_count == documents.len(),
        outcome.rows@.len() <= max_rows,
        outcome.rows@.len() == (if documents.len() <= max_rows {
            documents.len()
        } else {
            max_rows
        }),
        outcome.truncated <==> outcome.rows@.len() < outcome.row_count,
        !outcome.truncated ==> json_each(outcome.rows@) == documents,
        forall|i: int|
            0 <= i < outcome.rows@.len() ==> #[trigger] json_of(outcome.rows@[i]) == documents[i],
{
    let kept = json_each(outcome.rows@);
    assert(kept.len() == outcome.rows@.len());
    assert forall|i: int| 0 <= i < outcome.rows@.len() implies #[trigger] json_of(outcome.rows@[i])
        == documents[i] by {
        assert(kept[i] == json_of(outcome.rows@[i]));
    }
}

/// Every row that is kept is an object.
pub proof fn law_rows_are_objects(lines: Seq<Seq<char>>, i: int)
    requires
        first_row_error(lines) is None,
        0 <= i < lines.len(),
    ensures
        line_documents(lines)[i] is Fields,
        json_parse(lines[i]) == Ok::<JsonView, Seq<char>>(line_documents(lines)[i]),
    decreases i,
{
    if i > 0 {
        law_rows_are_objects(lines.skip(1), i - 1);
        assert(lines.skip(1)[i - 1] == lines[i]);
    }
}

/// What the driver did with a prepared query.
#[derive(Debug)]
pub enum DriverReply {
    /// It executed the query for its effect.
    Executed,
    /// It fetched a `JSONEachRow` response.
    Fetched(Vec<u8>),
}

/// What becomes of a query once the driver is done with it.
pub fn settle(reply: Result<DriverReply, DriverFailure>, max_rows: usize) -> (r: Result<
    QueryOutcome,
    String,
>)
    ensures
        match reply {
            Err(failure) => {
                &&& r matches Err(message)
                &&& message@ == failure_text(failure)
            },
            Ok(DriverReply::Executed) => {
                &&& r matches Ok(outcome)
                &&& outcome_of(outcome, Seq::empty(), max_rows as nat)
            },
            Ok(DriverReply::Fetched(bytes)) => match response_error(bytes@) {
                Some(error) => {
                    &&& r matches Err(message)
                    &&& message@ == error
                },
                None => {
                    &&& r matches Ok(outcome)
                    &&& outcome_of(
                        outcome,
                        line_documents(filled_lines(decode_utf8(bytes@))),
                        max_rows as nat,
                    )
                },
            },
        },
{
    match reply {
        Err(failure) => Err(failure.message()),
        Ok(DriverReply::Executed) => {
            let outcome = QueryOutcome::empty();
            assert(json_each(outcome.rows@) =~= Seq::<JsonView>::empty());
            Ok(outcome)
        },
        Ok(DriverReply::Fetched(bytes)) => parse_json_each_row(bytes.as_slice(), max_rows),
    }
}

/// Trimming adds nothing.
proof fn lemma_trimmed_length(s: Seq<char>)
    ensures
        trimmed(s).len() <= s.len(),
{
    lemma_trim_front_length(s);
    lemma_trim_back_length(trim_front(s));
}

proof fn lemma_trim_front_length(s: Seq<char>)
    ensures
        trim_front(s).len() <= s.len(),
    decreases s.len(),
{
    if s.len() > 0 && is_white(s[0]) {
        lemma_trim_front_length(s.skip(1));
    }
}

proof fn lemma_trim_back_length(s: Seq<char>)
    ensures
        trim_back(s).len() <= s.len(),
    decreases s.len(),
{
    if s.len() > 0 && is_white(s.last()) {
        lemma_trim_back_length(s.drop_last());
    }
}

/// The statement that lists tables is this one, with a filter and without: nothing but
/// the filter restricts it.
pub proof fn law_list_tables_statement()
    ensures
        list_tables_sql(false)
            == "SELECT database, name, engine, total_rows, total_bytes FROM system.tables"@
            + " ORDER BY database, name LIMIT ?"@,
        list_tables_sql(true)
            == "SELECT database, name, engine, total_rows, total_bytes FROM system.tables"@
            + " WHERE database = ?"@ + " ORDER BY database, name LIMIT ?"@,
{
    let head = "SELECT database, name, engine, total_rows, total_bytes FROM system.tables"@;
    assert(head + Seq::<char>::empty() =~= head);
}

/// The statement that lists columns is this one, for each choice of filters: nothing
/// but the filters restricts it.
pub proof fn law_list_columns_statement()
    ensures
        list_columns_sql(false, false)
            == "SELECT database, table, name, type, position, default_kind FROM system.columns"@
            + " ORDER BY database, table, position LIMIT ?"@,
        list_columns_sql(true, false)
            == "SELECT database, table, name, type, position, default_kind FROM system.columns"@
            + " WHERE database = ?"@ + " ORDER BY database, table, position LIMIT ?"@,
        list_columns_sql(false, true)
            == "SELECT database, table, name, type, position, default_kind FROM system.columns"@
            + " WHERE table = ?"@ + " ORDER BY database, table, position LIMIT ?"@,
        list_columns_sql(true, true)
            == "SELECT database, table, name, type, position, default_kind FROM system.columns"@
            + " WHERE database = ? AND table = ?"@ + " ORDER BY database, table, position LIMIT ?"@,
{
    let head = "SELECT database, table, name, type, position, default_kind FROM system.columns"@;
    assert(head + Seq::<char>::empty() =~= head);
}

/// Each filter adds its own condition and takes nothing from the rest: the statement
/// with both filters is the one with the database filter, with ` AND table = ?` put in
/// before the order, and the statement with the table filter is the same with the
/// database left out.
pub proof fn law_filters_add_their_conditions()
    ensures
        ({
            let head =
                "SELECT database, table, name, type, position, default_kind FROM system.columns"@;
            let tail = " ORDER BY database, table, position LIMIT ?"@;
            &&& list_columns_sql(true, true) == head + " WHERE "@ + "database = ?"@ + " AND "@
                + "table = ?"@ + tail
            &&& list_columns_sql(true, false) == head + " WHERE "@ + "database = ?"@ + tail
            &&& list_columns_sql(false, true) == head + " WHERE "@ + "table = ?"@ + tail
            &&& list_columns_sql(false, false) == head + tail
        }),
{
    let head = "SELECT database, table, name, type, position, default_kind FROM system.columns"@;
    let tail = " ORDER BY database, table, position LIMIT ?"@;
    reveal_strlit(" WHERE ");
    reveal_strlit("database = ?");
    reveal_strlit(" AND ");
    reveal_strlit("table = ?");
    reveal_strlit(" WHERE database = ?");
    reveal_strlit(" WHERE table = ?");
    reveal_strlit(" WHERE database = ? AND table = ?");
    assert(" WHERE database = ? AND table = ?"@ =~= " WHERE "@ + "database = ?"@ + " AND "@
        + "table = ?"@);
    assert(" WHERE database = ?"@ =~= " WHERE "@ + "database = ?"@);
    assert(" WHERE table = ?"@ =~= " WHERE "@ + "table = ?"@);
    assert(list_columns_sql(true, true) =~= head + " WHERE "@ + "database = ?"@ + " AND "@
        + "table = ?"@ + tail);
    assert(list_columns_sql(true, false) =~= head + " WHERE "@ + "database = ?"@ + tail);
    assert(list_columns_sql(false, true) =~= head + " WHERE "@ + "table = ?"@ + tail);
    assert(list_columns_sql(false, false) =~= head + tail);
}

/// A filter is bound without the white space around it, whole; without anything else
/// there is no filter, and nothing is bound for it.
pub proof fn law_filter_is_bound_whole(head: Seq<char>, core: Seq<char>, tail: Seq<char>)
    requires
        all_white(head),
        all_white(tail),
        core.len() > 0,
        !is_white(core[0]),
        !is_white(core.last()),
    ensures
        effective_filter(Some(head + core + tail)) == Some(core),
        effective_filter(Some(head)) is None,
        effective_filter(None) is None,
        filter_binds(Some(core)) == seq![BindView::Text(core)],
        filter_binds(None).len() == 0,
{
    law_trimming_keeps_the_core(head, core, tail);
    law_blank_is_all_white(head);
}

/// The limit that is bound is the number of rows, where it fits.
pub proof fn law_limit_is_the_row_cap(max_rows: usize)
    ensures
        limit_bind(max_rows) == BindView::Int((max_rows as i64) as int),
        max_rows <= 0x7fff_ffff_ffff_ffff ==> limit_bind(max_rows) == BindView::Int(
            max_rows as int,
        ),
{
}

/// Names are seen as their texts, one by one, in order, and so are settings and an
/// optional text.
pub proof fn law_texts_are_seen_one_by_one(
    names: Seq<&str>,
    settings: Seq<(String, String)>,
    value: Option<&str>,
    i: int,
)
    ensures
        names_of(names).len() == names.len(),
        0 <= i < names.len() ==> names_of(names)[i] == names[i]@,
        setting_texts(settings).len() == settings.len(),
        0 <= i < settings.len() ==> setting_texts(settings)[i] == (
            settings[i].0@,
            settings[i].1@,
        ),
        value matches Some(s) ==> filter_text(value) == Some(s@),
        value is None ==> filter_text(value) is None,
{
}

/// A client is configured with exactly what the binding gives: address, database and
/// credentials, and no setting of its own.
pub proof fn law_client_is_configured_as_given(
    url: Seq<char>,
    database: Option<Seq<char>>,
    username: Option<Seq<char>>,
    password: Option<Seq<char>>,
    name: Seq<char>,
)
    ensures
        ({
            let client = binding_client(url, database, username, password);
            &&& client.url == url
            &&& client.database == database
            &&& client.user == username
            &&& client.password == password
            &&& !client.token
            &&& !client.options.dom().contains(name)
        }),
{
}

/// A query goes where its client points, to its database and with its credentials,
/// whatever the statement, the values and the settings are.
pub proof fn law_query_goes_where_its_client_points(
    client: ClientView,
    statement: Seq<char>,
    values: Seq<BindView>,
    timeout_ms: nat,
    settings: Seq<(Seq<char>, Seq<char>)>,
)
    ensures
        ({
            let sent = request_view(client, statement, values, timeout_ms, settings).client;
            &&& sent.url == client.url
            &&& sent.database == client.database
            &&& sent.user == client.user
            &&& sent.password == client.password
            &&& sent.token == client.token
        }),
{
    let query = QueryView { client, sql: Some(template_pieces(statement)) };
    law_values_leave_the_client_alone(query, values);
    lemma_settings_keep_the_address(
        query_with_option(
            bind_all(query, values),
            "max_execution_time"@,
            decimal_text(budget_seconds(timeout_ms)),
        ),
        settings,
    );
}

proof fn lemma_settings_keep_the_address(query: QueryView, settings: Seq<(Seq<char>, Seq<char>)>)
    ensures
        with_settings(query, settings).client == (ClientView {
            options: with_settings(query, settings).client.options,
            ..query.client
        }),
    decreases settings.len(),
{
    if settings.len() > 0 {
        lemma_settings_keep_the_address(query, settings.drop_last());
    }
}

/// What the server is sent: the statement with its values in its placeholders, where
/// there are enough of them, under the operator's settings and, where none of them
/// says otherwise, the time of the call in seconds.
pub proof fn law_request_is_statement_values_and_settings(
    client: ClientView,
    statement: Seq<char>,
    values: Seq<BindView>,
    timeout_ms: nat,
    settings: Seq<(Seq<char>, Seq<char>)>,
)
    requires
        values.len() <= slot_count(statement),
        forall|i: int|
            0 <= i < settings.len() ==> (#[trigger] settings[i]).0 != "max_execution_time"@,
    ensures
        request_view(client, statement, values, timeout_ms, settings).sql == Some(
            rendered(statement, literals(values)),
        ),
        setting_of(
            request_view(client, statement, values, timeout_ms, settings),
            "max_execution_time"@,
        ) == Some(decimal_text(budget_seconds(timeout_ms))),
        literals(values).len() == values.len(),
        forall|i: int|
            0 <= i < values.len() ==> #[trigger] literals(values)[i] == sql_literal(values[i]),
{
    law_values_fill_slots_in_order(client, statement, values);
    law_operator_settings_win(
        client,
        statement,
        values,
        timeout_ms,
        settings,
        "max_execution_time"@,
    );
    lemma_setting_is_untouched(
        Some(decimal_text(budget_seconds(timeout_ms))),
        settings,
        "max_execution_time"@,
    );
}

proof fn lemma_setting_is_untouched(
    before: Option<Seq<char>>,
    settings: Seq<(Seq<char>, Seq<char>)>,
    name: Seq<char>,
)
    requires
        forall|i: int| 0 <= i < settings.len() ==> (#[trigger] settings[i]).0 != name,
    ensures
        last_setting(before, settings, name) == before,
    decreases settings.len(),
{
    if settings.len() > 0 {
        let earlier = settings.drop_last();
        assert(settings[settings.len() - 1].0 != name);
        assert forall|i: int| 0 <= i < earlier.len() implies (#[trigger] earlier[i]).0 != name by {
            assert(settings[i].0 != name);
        }
        lemma_setting_is_untouched(before, earlier, name);
    }
}

/// What is said of a failed call tells which step failed and, in full, why.
pub proof fn law_failures_tell_step_and_reason(reason: String)
    ensures
        failure_text(DriverFailure::Query(reason)) == "ClickHouse query failed: "@ + reason@,
        failure_text(DriverFailure::Response(reason)) == "ClickHouse response read failed: "@
            + reason@,
        failure_text(DriverFailure::TimedOut) == "ClickHouse call timed out"@,
{
}

proof fn lemma_line_length_to_feed(line: Seq<char>, rest: Seq<char>)
    requires
        !line.contains('\n'),
    ensures
        line_length(line) == line.len(),
        line_length(line + (seq!['\n'] + rest)) == line.len(),
{
    let whole = line + (seq!['\n'] + rest);
    assert(whole.take(line.len() as int) =~= line);
    assert(whole[line.len() as int] == '\n');
    lemma_line_length(whole, line);
    assert(line.take(line.len() as int) =~= line);
    lemma_line_length(line, line);
}

/// A text of one line holds that line, without the white space around it, however
/// long it is, and none where it is blank.
pub proof fn law_one_line_is_read_whole(line: Seq<char>)
    requires
        !line.contains('\n'),
    ensures
        is_blank(line) ==> filled_lines(line).len() == 0,
        !is_blank(line) ==> filled_lines(line) == seq![trimmed(line)],
{
    lemma_line_length_to_feed(line, Seq::empty());
    assert(line.take(line.len() as int) =~= line);
    assert(seq![trimmed(line)] + Seq::<Seq<char>>::empty() =~= seq![trimmed(line)]);
}

/// A text is read line by line: behind a line feed it goes on as if it began there.
pub proof fn law_lines_are_read_one_by_one(line: Seq<char>, rest: Seq<char>)
    requires
        !line.contains('\n'),
    ensures
        filled_lines(line + seq!['\n'] + rest) == filled_lines(line) + filled_lines(rest),
{
    let whole = line + (seq!['\n'] + rest);
    assert(line + seq!['\n'] + rest =~= whole);
    lemma_line_length_to_feed(line, rest);
    law_one_line_is_read_whole(line);
    assert(whole.take(line.len() as int) =~= line);
    assert(whole.skip(line.len() as int + 1) =~= rest);
    assert(filled_lines(whole) =~= filled_lines(line) + filled_lines(rest));
}

/// A row is accepted where it is a JSON object; every other document is refused with
/// its line, and what is no document with the reason.
pub proof fn law_rows_must_be_objects(line: Seq<char>, document: JsonView, reason: Seq<char>)
    ensures
        row_error(line, Ok(document)) is None <==> document is Fields,
        !(document is Fields) ==> row_error(line, Ok(document)) == Some(
            "ClickHouse JSONEachRow row is not a JSON object: "@ + line,
        ),
        row_error(line, Err(reason)) == Some("ClickHouse JSONEachRow parse failed: "@ + reason),
{
}

/// A response is refused where, and only where, one of its lines is no JSON object.
pub proof fn law_every_line_must_be_an_object(lines: Seq<Seq<char>>)
    ensures
        first_row_error(lines) is None <==> forall|i: int|
            0 <= i < lines.len() ==> json_parse(#[trigger] lines[i]) is Ok && json_parse(
                lines[i],
            )->Ok_0 is Fields,
    decreases lines.len(),
{
    if lines.len() > 0 {
        let rest = lines.skip(1);
        law_every_line_must_be_an_object(rest);
        if first_row_error(lines) is None {
            assert forall|i: int| 0 <= i < lines.len() implies json_parse(
                #[trigger] lines[i],
            ) is Ok && json_parse(lines[i])->Ok_0 is Fields by {
                if i > 0 {
                    assert(rest[i - 1] == lines[i]);
                }
            }
        } else if forall|i: int|
            0 <= i < lines.len() ==> json_parse(#[trigger] lines[i]) is Ok && json_parse(
                lines[i],
            )->Ok_0 is Fields {
            assert(json_parse(lines[0]) is Ok);
            assert forall|i: int| 0 <= i < rest.len() implies json_parse(
                #[trigger] rest[i],
            ) is Ok && json_parse(rest[i])->Ok_0 is Fields by {
                assert(rest[i] == lines[i + 1]);
            }
        }
    }
}

/// The first line that is refused is the one that is told of.
pub proof fn law_first_refused_line_is_told(
    accepted: Seq<Seq<char>>,
    line: Seq<char>,
    rest: Seq<Seq<char>>,
)
    requires
        first_row_error(accepted) is None,
        row_error(line, json_parse(line)) is Some,
    ensures
        first_row_error(accepted + seq![line] + rest) == row_error(line, json_parse(line)),
    decreases accepted.len(),
{
    let lines = accepted + seq![line] + rest;
    if accepted.len() == 0 {
        assert(lines[0] == line);
    } else {
        assert(lines[0] == accepted[0]);
        assert(lines.skip(1) =~= accepted.skip(1) + seq![line] + rest);
        law_first_refused_line_is_told(accepted.skip(1), line, rest);
    }
}

/// The rows of a response are the documents of its lines, one for each, in order.
pub proof fn law_one_row_for_each_line(lines: Seq<Seq<char>>, line: Seq<char>)
    ensures
        line_documents(lines).len() == lines.len(),
        line_documents(lines.push(line)) == line_documents(lines).push(json_parse(line)->Ok_0),
{
    assert(line_documents(lines.push(line)) =~= line_documents(lines).push(
        json_parse(line)->Ok_0,
    ));
}

/// The bytes of a response are read as UTF-8 or refused with the reason.
pub proof fn law_responses_are_utf8(chars: Seq<char>, bytes: Seq<u8>)
    ensures
        response_error(encode_utf8(chars)) == first_row_error(filled_lines(chars)),
        !valid_utf8(bytes) ==> response_error(bytes) == Some(
            "ClickHouse response is not valid UTF-8: "@ + utf8_error_text(bytes),
        ),
{
    encode_utf8_valid_utf8(chars);
    encode_utf8_decode_utf8(chars);
}

/// A statement with one placeholder is sent with the value's literal in its place, and
/// otherwise as it stands, whatever the value is.
pub proof fn law_one_value_takes_the_place_of_its_placeholder(
    client: ClientView,
    head: Seq<char>,
    tail: Seq<char>,
    value: BindView,
)
    requires
        no_mark(head),
        no_mark(tail),
        !(tail.len() >= 6 && tail.take(6) == "fields"@),
    ensures
        bind_all(
            QueryView { client, sql: Some(template_pieces(head + seq!['?'] + tail)) },
            seq![value],
        ).sql == Some(plain_pieces(head) + plain_pieces(sql_literal(value)) + plain_pieces(tail)),
{
    let statement = head + seq!['?'] + tail;
    assert(statement =~= head + (seq!['?'] + tail));
    let none = Seq::<Seq<char>>::empty();
    let literal = sql_literal(value);
    law_statement_is_sent_piece_by_piece(head, seq!['?'] + tail, literal, seq![literal] + none);
    law_statement_is_sent_piece_by_piece(tail, Seq::empty(), literal, none);
    if tail.len() > 0 {
        assert(tail[0] != '?');
    }
    law_statement_is_sent_piece_by_piece(Seq::empty(), tail, literal, none);
    assert(tail + Seq::<char>::empty() =~= tail);
    assert(plain_pieces(tail) + Seq::<SqlPiece>::empty() =~= plain_pieces(tail));
    assert(rendered(Seq::empty(), none) =~= Seq::<SqlPiece>::empty());
    assert(literals(seq![value]) =~= seq![literal] + none);
    law_values_fill_slots_in_order(client, statement, seq![value]);
    lemma_slots_of_one(head, tail);
    assert(rendered(statement, literals(seq![value])) =~= plain_pieces(head) + plain_pieces(literal)
        + plain_pieces(tail));
}

proof fn lemma_slots_of_one(head: Seq<char>, tail: Seq<char>)
    requires
        no_mark(head),
        no_mark(tail),
        !(tail.len() >= 6 && tail.take(6) == "fields"@),
    ensures
        slot_count(head + seq!['?'] + tail) == 1,
    decreases head.len() + tail.len(),
{
    let statement = head + seq!['?'] + tail;
    if head.len() > 0 {
        assert(head[0] != '?');
        assert(statement.skip(1) =~= head.skip(1) + seq!['?'] + tail);
        assert forall|i: int| 0 <= i < head.skip(1).len() implies #[trigger] head.skip(1)[i]
            != '?' by {
            assert(head[i + 1] != '?');
        }
        lemma_slots_of_one(head.skip(1), tail);
    } else {
        assert(statement.skip(1) =~= tail);
        if tail.len() > 0 {
            assert(tail[0] != '?');
            assert(statement[1] == tail[0]);
        }
        if statement.len() > 6 {
            assert(statement.subrange(1, 7) =~= tail.take(6));
        }
        lemma_no_slots(tail);
    }
}

proof fn lemma_no_slots(s: Seq<char>)
    requires
        no_mark(s),
    ensures
        slot_count(s) == 0,
    decreases s.len(),
{
    if s.len() > 0 {
        assert(s[0] != '?');
        assert forall|i: int| 0 <= i < s.skip(1).len() implies #[trigger] s.skip(1)[i] != '?' by {
            assert(s[i + 1] != '?');
        }
        lemma_no_slots(s.skip(1));
    }
}

/// The rows of a response in two parts, cut at a line feed, are those of the first part
/// and then those of the second, and it is refused where one of the two is.
pub proof fn law_responses_add_up(line: Seq<char>, rest: Seq<char>)
    requires
        !line.contains('\n'),
    ensures
        line_documents(filled_lines(line + seq!['\n'] + rest)) == line_documents(
            filled_lines(line),
        ) + line_documents(filled_lines(rest)),
        response_error(encode_utf8(line + seq!['\n'] + rest)) is None <==> response_error(
            encode_utf8(line),
        ) is None && response_error(encode_utf8(rest)) is None,
{
    let first = filled_lines(line);
    let second = filled_lines(rest);
    let whole = filled_lines(line + seq!['\n'] + rest);
    law_lines_are_read_one_by_one(line, rest);
    assert(line_documents(whole) =~= line_documents(first) + line_documents(second));
    law_responses_are_utf8(line, Seq::empty());
    law_responses_are_utf8(rest, Seq::empty());
    law_responses_are_utf8(line + seq!['\n'] + rest, Seq::empty());
    law_one_line_is_read_whole(line);
    if first.len() == 0 {
        assert(whole =~= second);
        assert(first_row_error(first) is None);
    } else {
        assert(whole[0] == first[0]);
        assert(whole.skip(1) =~= second);
        assert(first_row_error(first.skip(1)) is None);
        assert(first_row_error(first) == row_error(first[0], json_parse(first[0])));
    }
}

} // verus!
