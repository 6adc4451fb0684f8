//! The ClickHouse driver's clients and queries: what they are configured with,
//! and where a bound value stands in the text that is sent.
use crate::json::{number_of, NumberView};
use crate::params::BindView;
use crate::text::decimal_text;
use vstd::prelude::*;

verus! {

/// `clickhouse::Client`, opaque but for what [`client_of`] says of it.
#[verifier::external_type_specification]
#[verifier::external_body]
pub struct ExClient(clickhouse::Client);

/// `clickhouse::query::Query`, opaque but for what [`query_of`] says of it.
#[verifier::external_type_specification]
#[verifier::external_body]
pub struct ExQuery(clickhouse::query::Query);

/// What a client is configured with.
pub struct ClientView {
    pub url: Seq<char>,
    pub database: Option<Seq<char>>,
    pub user: Option<Seq<char>>,
    pub password: Option<Seq<char>>,
    /// Whether it authenticates by an access token rather than by user and
    /// password.
    pub token: bool,
    /// The settings that go with every query.
    pub options: Map<Seq<char>, Seq<char>>,
}

/// A piece of the text of a query.
pub enum SqlPiece {
    /// A character that is sent as it stands.
    Char(char),
    /// A `?` that waits for a value.
    Slot,
    /// A `?fields` that waits for column names.
    Columns,
}

/// The piece for a character that is sent as it stands.
pub open spec fn plain(c: char) -> SqlPiece {
    SqlPiece::Char(c)
}

/// What a query is made of.
pub struct QueryView {
    /// The configuration under which it is sent.
    pub client: ClientView,
    /// Its text; none after a value for which no `?` was left.
    pub sql: Option<Seq<SqlPiece>>,
}

/// What a client is configured with.
pub uninterp spec fn client_of(client: clickhouse::Client) -> ClientView;

/// What a query is made of.
pub uninterp spec fn query_of(query: clickhouse::query::Query) -> QueryView;

/// The numeral that the driver writes for a number bound as floating point.
pub uninterp spec fn float_literal(number: NumberView) -> Seq<char>;

/// The configuration of a client that nothing was set on.
pub open spec fn bare_client() -> ClientView {
    ClientView {
        url: Seq::empty(),
        database: None,
        user: None,
        password: None,
        token: false,
        options: Map::empty(),
    }
}

/// The pieces of a statement. `??` is a literal question mark.
pub open spec fn template_pieces(statement: Seq<char>) -> Seq<SqlPiece>
    decreases statement.len(),
{
    if statement.len() == 0 {
        Seq::empty()
    } else if statement[0] != '?' {
        seq![plain(statement[0])] + template_pieces(statement.skip(1))
    } else if statement.len() > 1 && statement[1] == '?' {
        seq![plain('?')] + template_pieces(statement.skip(2))
    } else if statement.len() > 6 && statement.subrange(1, 7) == "fields"@ {
        seq![SqlPiece::Columns] + template_pieces(statement.skip(7))
    } else {
        seq![SqlPiece::Slot] + template_pieces(statement.skip(1))
    }
}

/// Characters that are sent as they stand.
pub open spec fn plain_pieces(s: Seq<char>) -> Seq<SqlPiece> {
    s.map_values(|c: char| plain(c))
}

/// The position of the first slot, the length of `pieces` where there is none.
pub open spec fn first_slot(pieces: Seq<SqlPiece>) -> nat
    decreases pieces.len(),
{
    if pieces.len() == 0 || pieces[0] is Slot {
        0
    } else {
        1 + first_slot(pieces.skip(1))
    }
}

/// A text with `literal` in place of its first slot; none where no slot is left.
pub open spec fn fill_slot(sql: Option<Seq<SqlPiece>>, literal: Seq<char>) -> Option<
    Seq<SqlPiece>,
> {
    match sql {
        Some(pieces) => {
            let at = first_slot(pieces) as int;
            if at < pieces.len() {
                Some(pieces.take(at) + plain_pieces(literal) + pieces.skip(at + 1))
            } else {
                None
            }
        },
        None => None,
    }
}

/// Whether a character is written with a backslash before it in a literal.
pub open spec fn is_escaped_char(c: char) -> bool {
    c == '\\' || c == '\'' || c == '`' || c == '\t' || c == '\n'
}

/// A text as it stands between the quotes of a literal.
pub open spec fn escaped(s: Seq<char>) -> Seq<char>
    decreases s.len(),
{
    if s.len() == 0 {
        Seq::empty()
    } else if is_escaped_char(s[0]) {
        seq!['\\', s[0]] + escaped(s.skip(1))
    } else {
        seq![s[0]] + escaped(s.skip(1))
    }
}

/// The SQL literal of a bound value.
pub open spec fn sql_literal(value: BindView) -> Seq<char> {
    match value {
        BindView::Null => "NULL"@,
        BindView::Int(n) => if n < 0 {
            seq!['-'] + decimal_text((-n) as nat)
        } else {
            decimal_text(n as nat)
        },
        BindView::Float(number) => float_literal(number),
        BindView::Bool(b) => if b {
            "true"@
        } else {
            "false"@
        },
        BindView::Text(s) => seq!['\''] + escaped(s) + seq!['\''],
    }
}

/// `query` with `value` bound to its next slot.
pub open spec fn bound_query(query: QueryView, value: BindView) -> QueryView {
    QueryView { client: query.client, sql: fill_slot(query.sql, sql_literal(value)) }
}

/// `query` with a setting of its own.
pub open spec fn query_with_option(query: QueryView, name: Seq<char>, value: Seq<char>) -> QueryView {
    QueryView {
        client: ClientView { options: query.client.options.insert(name, value), ..query.client },
        sql: query.sql,
    }
}

/// Calls `Client::default`, which sets nothing and opens no socket.
#[verifier::external_body]
pub(crate) fn default_client() -> (r: clickhouse::Client)
    ensures
        client_of(r) == bare_client(),
{
    clickhouse::Client::default()
}

/// Calls `Client::with_url`, which sets the URL alone.
#[verifier::external_body]
pub(crate) fn with_url(client: clickhouse::Client, url: &str) -> (r: clickhouse::Client)
    ensures
        client_of(r) == (ClientView { url: url@, ..client_of(client) }),
{
    client.with_url(url)
}

/// Calls `Client::with_database`, which sets the database alone.
#[verifier::external_body]
pub(crate) fn with_database(client: clickhouse::Client, database: &str) -> (r: clickhouse::Client)
    ensures
        client_of(r) == (ClientView { database: Some(database@), ..client_of(client) }),
{
    client.with_database(database)
}

/// Calls `Client::with_user`, which sets the user alone. It panics on a client
/// with an access token.
#[verifier::external_body]
pub(crate) fn with_user(client: clickhouse::Client, user: &str) -> (r: clickhouse::Client)
    requires
        !client_of(client).token,
    ensures
        client_of(r) == (ClientView { user: Some(user@), ..client_of(client) }),
{
    client.with_user(user)
}

/// Calls `Client::with_password`, which sets the password alone. It panics on a
/// client with an access token.
#[verifier::external_body]
pub(crate) fn with_password(client: clickhouse::Client, password: &str) -> (r: clickhouse::Client)
    requires
        !client_of(client).token,
    ensures
        client_of(r) == (ClientView { password: Some(password@), ..client_of(client) }),
{
    client.with_password(password)
}

/// Calls `Client::query`: the query takes over the client's configuration and
/// reads the statement for its slots.
#[verifier::external_body]
pub(crate) fn new_query(client: &clickhouse::Client, statement: &str) -> (r:
    clickhouse::query::Query)
    ensures
        query_of(r) == (QueryView {
            client: client_of(*client),
            sql: Some(template_pieces(statement@)),
        }),
{
    client.query(statement)
}

/// Calls `Query::bind` with an `Option` that is `None`, written as `NULL`.
#[verifier::external_body]
pub(crate) fn bind_null(query: clickhouse::query::Query) -> (r: clickhouse::query::Query)
    ensures
        query_of(r) == bound_query(query_of(query), BindView::Null),
{
    query.bind(Option::<i64>::None)
}

/// Calls `Query::bind` with an `i64`, written as its numeral.
#[verifier::external_body]
pub(crate) fn bind_int(query: clickhouse::query::Query, value: i64) -> (r:
    clickhouse::query::Query)
    ensures
        query_of(r) == bound_query(query_of(query), BindView::Int(value as int)),
{
    query.bind(value)
}

/// Calls `Query::bind` with the floating-point value of a number.
#[verifier::external_body]
pub(crate) fn bind_float(query: clickhouse::query::Query, value: &serde_json::Number) -> (r:
    clickhouse::query::Query)
    ensures
        query_of(r) == (QueryView {
            client: query_of(query).client,
            sql: fill_slot(query_of(query).sql, float_literal(number_of(*value))),
        }),
{
    query.bind(value.as_f64())
}

/// Calls `Query::bind` with a truth value, written as `true` or `false`.
#[verifier::external_body]
pub(crate) fn bind_bool(query: clickhouse::query::Query, value: bool) -> (r:
    clickhouse::query::Query)
    ensures
        query_of(r) == bound_query(query_of(query), BindView::Bool(value)),
{
    query.bind(value)
}

/// Calls `Query::bind` with a string, written between quotes and escaped.
#[verifier::external_body]
pub(crate) fn bind_text(query: clickhouse::query::Query, value: &str) -> (r:
    clickhouse::query::Query)
    ensures
        query_of(r) == bound_query(query_of(query), BindView::Text(value@)),
{
    query.bind(value)
}

/// Calls `Query::with_option`, which sets the one setting on this query and takes
/// the place of an earlier setting of the same name.
#[verifier::external_body]
pub(crate) fn with_option(query: clickhouse::query::Query, name: &str, value: &str) -> (r:
    clickhouse::query::Query)
    ensures
        query_of(r) == query_with_option(query_of(query), name@, value@),
{
    query.with_option(name, value)
}

/// Where a literal ends whose inside begins at `from`: the position of the first
/// quote that no backslash stands for, a backslash standing for the character
/// behind it.
pub open spec fn literal_end(s: Seq<char>, from: int) -> Option<int>
    decreases s.len() + 1 - from,
{
    if from < 0 || from >= s.len() {
        None
    } else if s[from] == '\'' {
        Some(from)
    } else if s[from] == '\\' {
        literal_end(s, from + 2)
    } else {
        literal_end(s, from + 1)
    }
}

/// The text inside a literal, each backslash taken for the character behind it.
pub open spec fn unescaped(s: Seq<char>) -> Seq<char>
    decreases s.len(),
{
    if s.len() == 0 {
        Seq::empty()
    } else if s[0] == '\\' && s.len() > 1 {
        seq![s[1]] + unescaped(s.skip(2))
    } else {
        seq![s[0]] + unescaped(s.skip(1))
    }
}

/// Reading on behind a prefix.
proof fn lemma_literal_end_shift(prefix: Seq<char>, s: Seq<char>, from: int)
    requires
        0 <= from,
    ensures
        literal_end(prefix + s, prefix.len() + from) == (match literal_end(s, from) {
            Some(at) => Some(prefix.len() + at),
            None => None,
        }),
    decreases s.len() + 1 - from,
{
    if from < s.len() {
        assert((prefix + s)[prefix.len() + from] == s[from]);
        if s[from] == '\\' {
            lemma_literal_end_shift(prefix, s, from + 2);
        } else if s[from] != '\'' {
            lemma_literal_end_shift(prefix, s, from + 1);
        }
    }
}

/// A bound text cannot end its literal: whatever the text is and whatever follows,
/// the literal ends at the quote that the driver put behind the text.
pub proof fn law_bound_text_stays_in_its_literal(value: Seq<char>, rest: Seq<char>)
    ensures
        literal_end(sql_literal(BindView::Text(value)) + rest, 1) == Some(
            sql_literal(BindView::Text(value)).len() - 1,
        ),
{
    let tail = seq!['\''] + rest;
    lemma_escaped_is_closed(value, rest);
    lemma_literal_end_shift(seq!['\''], escaped(value) + tail, 0);
    assert(sql_literal(BindView::Text(value)) + rest =~= seq!['\''] + (escaped(value) + tail));
}

proof fn lemma_escaped_is_closed(value: Seq<char>, rest: Seq<char>)
    ensures
        literal_end(escaped(value) + (seq!['\''] + rest), 0) == Some(escaped(value).len() as int),
    decreases value.len(),
{
    reveal_with_fuel(literal_end, 2);
    let tail = seq!['\''] + rest;
    if value.len() == 0 {
        assert(escaped(value) + tail =~= tail);
    } else {
        let later = escaped(value.skip(1));
        lemma_escaped_is_closed(value.skip(1), rest);
        let head = if is_escaped_char(value[0]) {
            seq!['\\', value[0]]
        } else {
            seq![value[0]]
        };
        assert(escaped(value) + tail =~= head + (later + tail));
        lemma_literal_end_shift(head, later + tail, 0);
    }
}

/// A bound text is what its literal says: taking the escapes back gives the text.
pub proof fn law_bound_text_reads_back(value: Seq<char>)
    ensures
        unescaped(escaped(value)) == value,
    decreases value.len(),
{
    if value.len() > 0 {
        law_bound_text_reads_back(value.skip(1));
        let later = escaped(value.skip(1));
        if is_escaped_char(value[0]) {
            assert(escaped(value).skip(2) =~= later);
        } else {
            assert(escaped(value).skip(1) =~= later);
        }
        assert(seq![value[0]] + value.skip(1) =~= value);
    }
}

/// The number of slots of a statement.
pub open spec fn slot_count(statement: Seq<char>) -> nat
    decreases statement.len(),
{
    if statement.len() == 0 {
        0
    } else if statement[0] != '?' {
        slot_count(statement.skip(1))
    } else if statement.len() > 1 && statement[1] == '?' {
        slot_count(statement.skip(2))
    } else if statement.len() > 6 && statement.subrange(1, 7) == "fields"@ {
        slot_count(statement.skip(7))
    } else {
        1 + slot_count(statement.skip(1))
    }
}

/// A statement with literals in its slots, the first literal in the first slot and
/// so on, and every other character as the statement has it.
pub open spec fn rendered(statement: Seq<char>, literals: Seq<Seq<char>>) -> Seq<SqlPiece>
    decreases statement.len(),
{
    if statement.len() == 0 {
        Seq::empty()
    } else if statement[0] != '?' {
        seq![plain(statement[0])] + rendered(statement.skip(1), literals)
    } else if statement.len() > 1 && statement[1] == '?' {
        seq![plain('?')] + rendered(statement.skip(2), literals)
    } else if statement.len() > 6 && statement.subrange(1, 7) == "fields"@ {
        seq![SqlPiece::Columns] + rendered(statement.skip(7), literals)
    } else if literals.len() == 0 {
        seq![SqlPiece::Slot] + rendered(statement.skip(1), literals)
    } else {
        plain_pieces(literals[0]) + rendered(statement.skip(1), literals.skip(1))
    }
}

/// Whether no slot stands among the pieces.
pub open spec fn no_slot(pieces: Seq<SqlPiece>) -> bool {
    forall|i: int| 0 <= i < pieces.len() ==> !((#[trigger] pieces[i]) is Slot)
}

/// A slot is looked for behind pieces that are none.
proof fn lemma_first_slot_behind(head: Seq<SqlPiece>, rest: Seq<SqlPiece>)
    requires
        no_slot(head),
    ensures
        first_slot(head + rest) == head.len() + first_slot(rest),
    decreases head.len(),
{
    if head.len() == 0 {
        assert(head + rest =~= rest);
    } else {
        assert(!(head[0] is Slot));
        assert((head + rest).skip(1) =~= head.skip(1) + rest);
        assert forall|i: int| 0 <= i < head.skip(1).len() implies !((
        #[trigger] head.skip(1)[i]) is Slot) by {
            assert(!(head[i + 1] is Slot));
        }
        lemma_first_slot_behind(head.skip(1), rest);
    }
}

proof fn lemma_first_slot_bound(pieces: Seq<SqlPiece>)
    ensures
        first_slot(pieces) <= pieces.len(),
    decreases pieces.len(),
{
    if pieces.len() > 0 && !(pieces[0] is Slot) {
        lemma_first_slot_bound(pieces.skip(1));
    }
}

/// Filling the first slot leaves the pieces before it alone.
proof fn lemma_fill_behind(head: Seq<SqlPiece>, rest: Seq<SqlPiece>, literal: Seq<char>)
    requires
        no_slot(head),
    ensures
        fill_slot(Some(head + rest), literal) == (match fill_slot(Some(rest), literal) {
            Some(pieces) => Some(head + pieces),
            None => None,
        }),
{
    lemma_first_slot_behind(head, rest);
    lemma_first_slot_bound(rest);
    let at = first_slot(rest) as int;
    if at < rest.len() {
        let whole = head + rest;
        assert(whole.take(head.len() + at) + plain_pieces(literal) + whole.skip(
            head.len() + at + 1,
        ) =~= head + (rest.take(at) + plain_pieces(literal) + rest.skip(at + 1)));
    }
}

proof fn lemma_plain_has_no_slot(s: Seq<char>)
    ensures
        no_slot(plain_pieces(s)),
{
    let pieces = plain_pieces(s);
    assert(pieces.len() == s.len());
    assert(forall|i: int| 0 <= i < pieces.len() ==> pieces[i] == plain(s[i]));
}

proof fn lemma_one_is_no_slot(piece: SqlPiece)
    requires
        !(piece is Slot),
    ensures
        no_slot(seq![piece]),
{
    assert forall|i: int| 0 <= i < seq![piece].len() implies !((
    #[trigger] seq![piece][i]) is Slot) by {
        assert(seq![piece][i] == piece);
    }
}

/// One more value goes into the first slot that is left; where none is left there
/// is nothing to be sent.
pub(crate) proof fn lemma_fill_rendered(
    statement: Seq<char>,
    literals: Seq<Seq<char>>,
    literal: Seq<char>,
)
    requires
        literals.len() <= slot_count(statement),
    ensures
        fill_slot(Some(rendered(statement, literals)), literal) == (if literals.len() < slot_count(
            statement,
        ) {
            Some(rendered(statement, literals.push(literal)))
        } else {
            None
        }),
    decreases statement.len(),
{
    let more = literals.push(literal);
    if statement.len() == 0 {
    } else if statement[0] != '?' {
        lemma_fill_rendered(statement.skip(1), literals, literal);
        lemma_one_is_no_slot(plain(statement[0]));
        lemma_fill_behind(
            seq![plain(statement[0])],
            rendered(statement.skip(1), literals),
            literal,
        );
    } else if statement.len() > 1 && statement[1] == '?' {
        lemma_fill_rendered(statement.skip(2), literals, literal);
        lemma_one_is_no_slot(plain('?'));
        lemma_fill_behind(
            seq![plain('?')],
            rendered(statement.skip(2), literals),
            literal,
        );
    } else if statement.len() > 6 && statement.subrange(1, 7) == "fields"@ {
        lemma_fill_rendered(statement.skip(7), literals, literal);
        lemma_one_is_no_slot(SqlPiece::Columns);
        lemma_fill_behind(
            seq![SqlPiece::Columns],
            rendered(statement.skip(7), literals),
            literal,
        );
    } else if literals.len() == 0 {
        let rest = rendered(statement.skip(1), literals);
        let whole = seq![SqlPiece::Slot] + rest;
        assert(first_slot(whole) == 0);
        assert(whole.skip(1) =~= rest);
        assert(more.skip(1) =~= literals);
        assert(whole.take(0) + plain_pieces(literal) + whole.skip(1) =~= plain_pieces(literal)
            + rest);
        assert(more[0] == literal);
    } else {
        lemma_fill_rendered(statement.skip(1), literals.skip(1), literal);
        lemma_plain_has_no_slot(literals[0]);
        lemma_fill_behind(
            plain_pieces(literals[0]),
            rendered(statement.skip(1), literals.skip(1)),
            literal,
        );
        assert(more.skip(1) =~= literals.skip(1).push(literal));
        assert(more[0] == literals[0]);
    }
}

/// A statement into which nothing was put yet.
pub(crate) proof fn lemma_rendered_bare(statement: Seq<char>)
    ensures
        rendered(statement, Seq::empty()) == template_pieces(statement),
    decreases statement.len(),
{
    if statement.len() == 0 {
    } else if statement[0] != '?' {
        lemma_rendered_bare(statement.skip(1));
    } else if statement.len() > 1 && statement[1] == '?' {
        lemma_rendered_bare(statement.skip(2));
    } else if statement.len() > 6 && statement.subrange(1, 7) == "fields"@ {
        lemma_rendered_bare(statement.skip(7));
    } else {
        lemma_rendered_bare(statement.skip(1));
    }
}

/// What each value is written as: `NULL`, a truth value by its word, an integer by its
/// numeral with a minus sign where it is negative, another number by the driver's
/// numeral of it, and a text escaped, in quotes.
pub proof fn law_values_are_written_as_they_are(
    b: bool,
    n: nat,
    number: NumberView,
    value: Seq<char>,
)
    ensures
        sql_literal(BindView::Float(number)) == float_literal(number),
        sql_literal(BindView::Null) == "NULL"@,
        sql_literal(BindView::Bool(b)) == "true"@ <==> b,
        sql_literal(BindView::Bool(b)) == "false"@ <==> !b,
        sql_literal(BindView::Int(n as int)) == decimal_text(n),
        n > 0 ==> sql_literal(BindView::Int(-n)) == seq!['-'] + decimal_text(n),
        sql_literal(BindView::Text(value)).len() == escaped(value).len() + 2,
        sql_literal(BindView::Text(value))[0] == '\'',
        sql_literal(BindView::Text(value)).last() == '\'',
        sql_literal(BindView::Text(value)).subrange(1, escaped(value).len() as int + 1) == escaped(
            value,
        ),
{
    reveal_strlit("true");
    reveal_strlit("false");
    assert("true"@.len() != "false"@.len());
    assert(sql_literal(BindView::Text(value)).subrange(1, escaped(value).len() as int + 1)
        =~= escaped(value));
}

/// A text is escaped character by character: a backslash goes before the backslash,
/// the two quotes, the tab and the line feed, and before nothing else.
pub proof fn law_escaping_is_by_character(c: char, rest: Seq<char>)
    ensures
        escaped(Seq::empty()).len() == 0,
        escaped(seq![c] + rest) == (if c == '\\' || c == '\'' || c == '`' || c == '\t' || c == '\n' {
            seq!['\\', c]
        } else {
            seq![c]
        }) + escaped(rest),
{
    assert((seq![c] + rest).skip(1) =~= rest);
}

/// How a statement is sent: text without a question mark as it stands, a doubled one as
/// one, and a single one as the first literal that is left, the rest being sent in the
/// same way with the other literals.
pub proof fn law_statement_is_sent_piece_by_piece(
    head: Seq<char>,
    rest: Seq<char>,
    literal: Seq<char>,
    later: Seq<Seq<char>>,
)
    requires
        forall|i: int| 0 <= i < head.len() ==> #[trigger] head[i] != '?',
    ensures
        rendered(Seq::empty(), later).len() == 0,
        rendered(head + rest, later) == plain_pieces(head) + rendered(rest, later),
        rendered(seq!['?', '?'] + rest, later) == plain_pieces(seq!['?']) + rendered(rest, later),
        (rest.len() == 0 || rest[0] != '?') && !(rest.len() >= 6 && rest.take(6) == "fields"@)
            ==> rendered(
            seq!['?'] + rest,
            seq![literal] + later,
        ) == plain_pieces(literal) + rendered(rest, later),
    decreases head.len(),
{
    let doubled = seq!['?', '?'] + rest;
    assert(doubled.skip(2) =~= rest);
    assert(plain_pieces(seq!['?']) =~= seq![plain('?')]);
    if (rest.len() == 0 || rest[0] != '?') && !(rest.len() >= 6 && rest.take(6) == "fields"@) {
        let single = seq!['?'] + rest;
        assert(single.skip(1) =~= rest);
        assert((seq![literal] + later).skip(1) =~= later);
        if single.len() > 6 {
            assert(single.subrange(1, 7) =~= rest.take(6));
        }
    }
    if head.len() == 0 {
        assert(head + rest =~= rest);
        assert(plain_pieces(head) + rendered(rest, later) =~= rendered(rest, later));
    } else {
        let whole = head + rest;
        assert(head[0] != '?');
        assert(whole.skip(1) =~= head.skip(1) + rest);
        assert forall|i: int| 0 <= i < head.skip(1).len() implies #[trigger] head.skip(1)[i]
            != '?' by {
            assert(head[i + 1] != '?');
        }
        law_statement_is_sent_piece_by_piece(head.skip(1), rest, literal, later);
        assert(rendered(whole, later) =~= plain_pieces(head) + rendered(rest, later));
    }
}

/// Characters that are sent as they stand are those of the text, one by one.
pub proof fn law_plain_text_is_sent_as_it_stands(s: Seq<char>, i: int)
    ensures
        plain_pieces(s).len() == s.len(),
        0 <= i < s.len() ==> plain_pieces(s)[i] == SqlPiece::Char(s[i]),
{
}

} // verus!
