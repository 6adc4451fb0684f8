//! The listing of resources and the completion of template variables.
use crate::call::CallPlan;
use crate::engine::{filter_text, QueryOutcome};
use crate::json::{
    as_plain_text, compact_json, first_member, first_name, json_each, json_of, member, member_text, plain_text,
    text_under, under, JsonView,
};
use crate::params::{bind_views, texts, BindView, ChBind};
use crate::plugin::BackendError;
use crate::profile::{profile_valid, string_text, ClickHouseProfile};
use crate::text::{
    before, decimal, decimal_text, lemma_before_irreflexive, natural_of, parse_u64, same_text, trim,
    trimmed,
};
use crate::types::{
    bind_count, completion_names, names_ascend, safe_identifier, text_or_empty, CompletionConfig,
    ListQueryConfig, ListQueryMode,
};
use vstd::prelude::*;
use vstd::string::*;

verus! {

/// What the listing of one page runs.
#[derive(Debug, Clone, PartialEq)]
pub struct ListPlan {
    pub run: CallPlan,
    /// At most so many rows are kept.
    pub max_rows: usize,
    /// How many resources the earlier pages held, where the listing counts them.
    pub prior_offset: u64,
}

/// How many resources the pages before `cursor` held, where the listing counts
/// them; none where the cursor is no such number.
pub open spec fn offset_of(mode: ListQueryMode, cursor: Option<Seq<char>>) -> Option<nat> {
    match (mode, cursor) {
        (ListQueryMode::Offset, Some(c)) => match natural_of(c) {
            Some(n) => if n <= u64::MAX {
                Some(n)
            } else {
                None
            },
            None => None,
        },
        _ => Some(0),
    }
}

/// The values for the two `?` of a listing.
pub open spec fn listing_binds(
    mode: ListQueryMode,
    page_size: u64,
    cursor: Option<Seq<char>>,
    offset: u64,
) -> Seq<BindView> {
    match mode {
        ListQueryMode::Keyset => seq![
            match cursor {
                Some(c) => BindView::Text(c),
                None => BindView::Null,
            },
            BindView::Int((page_size as i64) as int),
        ],
        ListQueryMode::Offset => seq![
            BindView::Int((page_size as i64) as int),
            BindView::Int((offset as i64) as int),
        ],
    }
}

/// What is said of a cursor that should be an offset and is none.
pub open spec fn cursor_error(cursor: Seq<char>) -> Seq<char> {
    "offset-mode cursor '"@ + cursor + "' is not a non-negative integer"@
}

/// Whether `plan` is what the listing `cfg` runs for the page behind `cursor`.
pub open spec fn lists_page(plan: ListPlan, cfg: ListQueryConfig, cursor: Option<Seq<char>>) -> bool {
    &&& offset_of(cfg.mode, cursor) == Some(plan.prior_offset as nat)
    &&& plan.run.statement@ == cfg.sql@
    &&& bind_views(plan.run.binds@) == listing_binds(
        cfg.mode,
        cfg.page_size,
        cursor,
        plan.prior_offset,
    )
    &&& plan.max_rows == cfg.page_size as usize
}

/// Decides what the listing of the page behind `cursor` runs; nothing where the
/// binding has no listing. The cursor and the page size are bound, the cursor
/// first where it is a key and last where it is an offset.
pub fn plan_listing(profile: &ClickHouseProfile, cursor: Option<&str>) -> (r: Result<
    Option<ListPlan>,
    BackendError,
>)
    ensures
        match profile.list_query {
            None => r == Ok::<Option<ListPlan>, BackendError>(None),
            Some(cfg) => match offset_of(cfg.mode, filter_text(cursor)) {
                Some(_) => {
                    &&& r matches Ok(Some(plan))
                    &&& lists_page(plan, cfg, filter_text(cursor))
                },
                None => {
                    &&& r matches Err(BackendError::InvalidSpec { message })
                    &&& message@ == cursor_error(cursor->Some_0@)
                },
            },
        },
{
    let cfg: &ListQueryConfig = match &profile.list_query {
        Some(cfg) => cfg,
        None => {
            return Ok(None);
        },
    };
    let prior_offset: u64 = match (cfg.mode, cursor) {
        (ListQueryMode::Offset, Some(c)) => match parse_u64(c) {
            Some(n) => n,
            None => {
                let mut message = "offset-mode cursor '".to_owned();
                message.append(c);
                message.append("' is not a non-negative integer");
                return Err(BackendError::InvalidSpec { message });
            },
        },
        _ => 0,
    };
    let mut binds: Vec<ChBind> = Vec::new();
    match cfg.mode {
        ListQueryMode::Keyset => {
            binds.push(
                match cursor {
                    Some(c) => ChBind::Str(c.to_owned()),
                    None => ChBind::Null,
                },
            );
            binds.push(ChBind::Int(cfg.page_size as i64));
        },
        ListQueryMode::Offset => {
            binds.push(ChBind::Int(cfg.page_size as i64));
            binds.push(ChBind::Int(prior_offset as i64));
        },
    }
    assert(bind_views(binds@) =~= listing_binds(
        cfg.mode,
        cfg.page_size,
        filter_text(cursor),
        prior_offset,
    ));
    let run = CallPlan { statement: cfg.sql.clone(), binds };
    Ok(Some(ListPlan { run, max_rows: cfg.page_size as usize, prior_offset }))
}

/// A resource in a listing.
#[derive(Debug, Clone, PartialEq)]
pub struct ResourceEntry {
    pub uri: String,
    pub name: Option<String>,
    pub description: Option<String>,
    pub mime_type: Option<String>,
}

/// A resource in a listing as a mathematical value.
pub struct EntryView {
    pub uri: Seq<char>,
    pub name: Option<Seq<char>>,
    pub description: Option<Seq<char>>,
    pub mime_type: Option<Seq<char>>,
}

impl View for ResourceEntry {
    type V = EntryView;

    open spec fn view(&self) -> EntryView {
        EntryView {
            uri: self.uri@,
            name: string_text(self.name),
            description: string_text(self.description),
            mime_type: string_text(self.mime_type),
        }
    }
}

/// One page of a listing.
#[derive(Debug, Clone, PartialEq)]
pub struct ResourcePage {
    pub resources: Vec<ResourceEntry>,
    /// The cursor of the next page, where there is one.
    pub next_cursor: Option<String>,
}

impl ResourcePage {
    /// The page without resources, and the last one.
    pub fn empty() -> (r: Self)
        ensures
            r.resources@.len() == 0,
            r.next_cursor is None,
    {
        ResourcePage { resources: Vec::new(), next_cursor: None }
    }
}

/// The resources of a page as mathematical values.
pub open spec fn entry_views(entries: Seq<ResourceEntry>) -> Seq<EntryView> {
    entries.map_values(|e: ResourceEntry| e@)
}

/// The resource that a row stands for; none for a row without a `uri`.
pub open spec fn row_entry(row: JsonView) -> Option<EntryView> {
    match text_under(row, "uri"@) {
        Some(uri) => Some(
            EntryView {
                uri,
                name: text_under(row, "name"@),
                description: text_under(row, "description"@),
                mime_type: text_under(row, "mime_type"@),
            },
        ),
        None => None,
    }
}

/// The resources that rows stand for, in order.
pub open spec fn row_entries(rows: Seq<JsonView>) -> Seq<EntryView>
    decreases rows.len(),
{
    if rows.len() == 0 {
        Seq::empty()
    } else {
        match row_entry(rows.last()) {
            Some(entry) => row_entries(rows.drop_last()).push(entry),
            None => row_entries(rows.drop_last()),
        }
    }
}

/// The plain text in a column of a row, where there is any.
pub open spec fn cell_text(row: JsonView, column: Seq<char>) -> Option<Seq<char>> {
    match under(row, column) {
        Some(document) => plain_text(document),
        None => None,
    }
}

/// The cursor of the page after `rows`; none where the page is not full, and none
/// where the last row has no value in the cursor column.
pub open spec fn next_page(rows: Seq<JsonView>, cfg: ListQueryConfig, prior_offset: nat) -> Option<
    Seq<char>,
> {
    if rows.len() == 0 || rows.len() < cfg.page_size {
        None
    } else {
        match cfg.mode {
            ListQueryMode::Keyset => cell_text(
                rows.last(),
                trimmed(text_or_empty(cfg.cursor_column)),
            ),
            ListQueryMode::Offset => Some(decimal_text(prior_offset + rows.len())),
        }
    }
}

fn copy_text(found: Option<&String>) -> (r: Option<String>)
    ensures
        match found {
            Some(s) => string_text(r) == Some(s@),
            None => r is None,
        },
{
    match found {
        Some(s) => Some(s.clone()),
        None => None,
    }
}

/// The resource that a row stands for; none for a row without a `uri`.
fn read_entry(row: &serde_json::Value) -> (r: Option<ResourceEntry>)
    ensures
        match r {
            Some(entry) => row_entry(json_of(*row)) == Some(entry@),
            None => row_entry(json_of(*row)) is None,
        },
{
    match member_text(row, "uri") {
        Some(uri) => Some(
            ResourceEntry {
                uri: uri.clone(),
                name: copy_text(member_text(row, "name")),
                description: copy_text(member_text(row, "description")),
                mime_type: copy_text(member_text(row, "mime_type")),
            },
        ),
        None => None,
    }
}

/// The plain text in a column of a row, where there is any.
fn read_cell(row: &serde_json::Value, column: &str) -> (r: Option<String>)
    ensures
        string_text(r) == cell_text(json_of(*row), column@),
{
    match member(row, column) {
        Some(found) => as_plain_text(found),
        None => None,
    }
}

/// Makes a page of the rows of a listing: one resource for each row with a `uri`,
/// and behind a full page the cursor of the next one.
pub fn rows_to_resource_page(
    rows: &[serde_json::Value],
    cfg: &ListQueryConfig,
    prior_offset: u64,
) -> (r: ResourcePage)
    ensures
        entry_views(r.resources@) == row_entries(json_each(rows@)),
        string_text(r.next_cursor) == next_page(json_each(rows@), *cfg, prior_offset as nat),
{
    let ghost documents = json_each(rows@);
    let n: usize = rows.len();
    let mut resources: Vec<ResourceEntry> = Vec::new();
    assert(entry_views(resources@) =~= Seq::<EntryView>::empty());
    for i in 0..n
        invariant
            n == rows@.len(),
            documents == json_each(rows@),
            entry_views(resources@) == row_entries(documents.take(i as int)),
    {
        proof {
            let now = documents.take(i + 1);
            assert(now.last() == json_of(rows@[i as int]));
            assert(now.drop_last() =~= documents.take(i as int));
        }
        if let Some(entry) = read_entry(&rows[i]) {
            let ghost earlier = resources@;
            resources.push(entry);
            assert(entry_views(resources@) =~= entry_views(earlier).push(entry@));
        }
    }
    assert(documents.take(n as int) =~= documents);
    let next_cursor: Option<String> = if n == 0 || (n as u64) < cfg.page_size {
        None
    } else {
        match cfg.mode {
            ListQueryMode::Keyset => {
                let column: &str = match &cfg.cursor_column {
                    Some(name) => trim(name.as_str()),
                    None => trim(""),
                };
                proof {
                    reveal_strlit("");
                    assert(""@ =~= Seq::<char>::empty());
                }
                read_cell(&rows[n - 1], column)
            },
            ListQueryMode::Offset => Some(decimal(prior_offset as u128 + n as u128)),
        }
    };
    ResourcePage { resources, next_cursor }
}

/// Answers a listing with its page, or with why its query failed.
pub fn finish_listing(
    result: Result<QueryOutcome, String>,
    cfg: &ListQueryConfig,
    prior_offset: u64,
) -> (r: Result<ResourcePage, BackendError>)
    ensures
        match result {
            Ok(outcome) => {
                &&& r matches Ok(page)
                &&& entry_views(page.resources@) == row_entries(json_each(outcome.rows@))
                &&& string_text(page.next_cursor) == next_page(
                    json_each(outcome.rows@),
                    *cfg,
                    prior_offset as nat,
                )
            },
            Err(message) => r == Err::<ResourcePage, BackendError>(
                BackendError::Transport { message },
            ),
        },
{
    match result {
        Ok(outcome) => Ok(rows_to_resource_page(outcome.rows.as_slice(), cfg, prior_offset)),
        Err(message) => Err(BackendError::Transport { message }),
    }
}

/// What the completion of a variable runs.
#[derive(Debug, Clone, PartialEq)]
pub struct CompletionPlan {
    pub run: CallPlan,
    /// At most so many candidates are given.
    pub max_results: usize,
}

/// The completion for a variable, where there is one.
pub open spec fn completion_for(
    completions: Seq<(String, CompletionConfig)>,
    variable: Seq<char>,
) -> Option<CompletionConfig>
    decreases completions.len(),
{
    if completions.len() == 0 {
        None
    } else if completions[0].0@ == variable {
        Some(completions[0].1)
    } else {
        completion_for(completions.skip(1), variable)
    }
}

/// The cap on the candidates of a completion.
pub open spec fn candidate_cap(cfg: CompletionConfig) -> nat {
    match cfg.max_results {
        Some(n) => n as nat,
        None => 100,
    }
}

/// Decides what the completion of a variable runs; nothing where the binding has
/// no completion for it. The typed prefix is bound to the one `?`.
pub fn plan_completion(profile: &ClickHouseProfile, variable_name: &str, prefix: &str) -> (r: Option<
    CompletionPlan,
>)
    ensures
        match completion_for(profile.variable_completions@, variable_name@) {
            Some(cfg) => {
                &&& r matches Some(plan)
                &&& plan.run.statement@ == cfg.sql@
                &&& bind_views(plan.run.binds@) == seq![BindView::Text(prefix@)]
                &&& plan.max_results == candidate_cap(cfg)
            },
            None => r is None,
        },
{
    let n: usize = profile.variable_completions.len();
    let ghost completions = profile.variable_completions@;
    assert(completions.skip(0) =~= completions);
    for i in 0..n
        invariant
            n == completions.len(),
            completions == profile.variable_completions@,
            completion_for(completions.skip(i as int), variable_name@) == completion_for(
                completions,
                variable_name@,
            ),
    {
        assert(completions.skip(i as int)[0] == completions[i as int]);
        assert(completions.skip(i as int).skip(1) =~= completions.skip(i + 1));
        if same_text(profile.variable_completions[i].0.as_str(), variable_name) {
            let cfg: &CompletionConfig = &profile.variable_completions[i].1;
            let mut binds: Vec<ChBind> = Vec::new();
            binds.push(ChBind::Str(prefix.to_owned()));
            assert(bind_views(binds@) =~= seq![BindView::Text(prefix@)]);
            let max_results: usize = match cfg.max_results {
                Some(n) => n as usize,
                None => 100,
            };
            let run = CallPlan { statement: cfg.sql.clone(), binds };
            return Some(CompletionPlan { run, max_results });
        }
    }
    assert(completions.skip(n as int).len() == 0);
    None
}

/// The plain texts in a column of rows, in order.
pub open spec fn column_texts(rows: Seq<JsonView>, column: Seq<char>) -> Seq<Seq<char>>
    decreases rows.len(),
{
    if rows.len() == 0 {
        Seq::empty()
    } else {
        match cell_text(rows.last(), column) {
            Some(found) => column_texts(rows.drop_last(), column).push(found),
            None => column_texts(rows.drop_last(), column),
        }
    }
}

/// The first rows, up to a cap.
pub open spec fn first_rows(rows: Seq<JsonView>, cap: nat) -> Seq<JsonView> {
    if rows.len() <= cap {
        rows
    } else {
        rows.take(cap as int)
    }
}

/// The name of the first column, as the first row has it, where there is one.
pub open spec fn leading_column(rows: Seq<JsonView>) -> Option<Seq<char>> {
    if rows.len() == 0 {
        None
    } else {
        first_name(rows[0])
    }
}

/// The candidates that rows hold: the plain texts in the first column.
pub open spec fn candidates(rows: Seq<JsonView>, cap: nat) -> Seq<Seq<char>> {
    match leading_column(rows) {
        Some(column) => column_texts(first_rows(rows, cap), column),
        None => Seq::empty(),
    }
}

/// The name of the first column, as the first row has it, where there is one.
pub fn first_column(rows: &[serde_json::Value]) -> (r: Option<String>)
    ensures
        string_text(r) == leading_column(json_each(rows@)),
{
    if rows.len() == 0 {
        return None;
    }
    match first_member(&rows[0]) {
        Some((name, _)) => Some(name.clone()),
        None => None,
    }
}

/// The candidates that rows hold in a column: its plain texts, at most from the
/// first `max` rows.
pub fn rows_to_completion_values(
    rows: &[serde_json::Value],
    column: Option<&str>,
    max: usize,
) -> (r: Vec<String>)
    ensures
        texts(r@) == (match column {
            Some(name) => column_texts(first_rows(json_each(rows@), max as nat), name@),
            None => Seq::empty(),
        }),
{
    let mut values: Vec<String> = Vec::new();
    assert(texts(values@) =~= Seq::<Seq<char>>::empty());
    let name: &str = match column {
        Some(name) => name,
        None => {
            return values;
        },
    };
    let ghost documents = json_each(rows@);
    let n: usize = if rows.len() <= max {
        rows.len()
    } else {
        max
    };
    for i in 0..n
        invariant
            n <= rows@.len(),
            documents == json_each(rows@),
            texts(values@) == column_texts(documents.take(i as int), name@),
    {
        proof {
            let now = documents.take(i + 1);
            assert(now.last() == json_of(rows@[i as int]));
            assert(now.drop_last() =~= documents.take(i as int));
        }
        if let Some(found) = read_cell(&rows[i], name) {
            let ghost earlier = values@;
            values.push(found);
            assert(texts(values@) =~= texts(earlier).push(found@));
        }
    }
    assert(documents.take(n as int) =~= first_rows(documents, max as nat));
    values
}

/// The candidates that the rows of a completion hold.
pub fn completion_candidates(rows: &[serde_json::Value], max: usize) -> (r: Vec<String>)
    ensures
        texts(r@) == candidates(json_each(rows@), max as nat),
{
    match first_column(rows) {
        Some(column) => rows_to_completion_values(rows, Some(column.as_str()), max),
        None => rows_to_completion_values(rows, None, max),
    }
}

/// Answers a completion with the candidates, or with why its query failed.
pub fn finish_completion(result: Result<QueryOutcome, String>, max: usize) -> (r: Result<
    Vec<String>,
    BackendError,
>)
    ensures
        match result {
            Ok(outcome) => {
                &&& r matches Ok(values)
                &&& texts(values@) == candidates(json_each(outcome.rows@), max as nat)
            },
            Err(message) => r == Err::<Vec<String>, BackendError>(
                BackendError::Transport { message },
            ),
        },
{
    match result {
        Ok(outcome) => Ok(completion_candidates(outcome.rows.as_slice(), max)),
        Err(message) => Err(BackendError::Transport { message }),
    }
}

/// The cursor behind a full page of a listing by offset leads to the page that
/// begins where that page ended.
pub proof fn law_offset_pages_are_contiguous(
    rows: Seq<JsonView>,
    cfg: ListQueryConfig,
    prior_offset: nat,
)
    requires
        cfg.mode == ListQueryMode::Offset,
        0 < rows.len(),
        cfg.page_size <= rows.len(),
        prior_offset + rows.len() <= u64::MAX,
    ensures
        next_page(rows, cfg, prior_offset) is Some,
        offset_of(cfg.mode, next_page(rows, cfg, prior_offset)) == Some(prior_offset + rows.len()),
{
    crate::text::law_numeral_reads_back(prior_offset + rows.len());
}

/// The cursor column of a registered listing by key is a safe SQL identifier.
pub proof fn law_registered_cursor_column_is_safe(profile: ClickHouseProfile)
    requires
        profile_valid(profile),
    ensures
        profile.list_query matches Some(cfg) ==> 1 <= cfg.page_size <= 1000 && (cfg.mode
            == ListQueryMode::Keyset ==> safe_identifier(
            trimmed(text_or_empty(cfg.cursor_column)),
        )),
{
}

/// Every completion of a registered binding is found under its name.
pub proof fn law_registered_completion_is_found(profile: ClickHouseProfile, i: int)
    requires
        profile_valid(profile),
        0 <= i < profile.variable_completions@.len(),
    ensures
        completion_for(profile.variable_completions@, profile.variable_completions@[i].0@) == Some(
            profile.variable_completions@[i].1,
        ),
{
    lemma_completion_is_found(profile.variable_completions@, i);
}

proof fn lemma_completion_is_found(completions: Seq<(String, CompletionConfig)>, i: int)
    requires
        names_ascend(completion_names(completions)),
        0 <= i < completions.len(),
    ensures
        completion_for(completions, completions[i].0@) == Some(completions[i].1),
    decreases completions.len(),
{
    let names = completion_names(completions);
    if i > 0 {
        let rest = completions.skip(1);
        assert(names[0] == completions[0].0@ && names[i] == completions[i].0@);
        lemma_before_irreflexive(names[0]);
        assert(completion_names(rest) =~= names.skip(1));
        assert forall|a: int, b: int| 0 <= a < b < rest.len() implies before(
            #[trigger] completion_names(rest)[a],
            #[trigger] completion_names(rest)[b],
        ) by {
            assert(before(names[a + 1], names[b + 1]));
        }
        lemma_completion_is_found(rest, i - 1);
    }
}

/// A registered completion has exactly one placeholder, for the typed prefix.
pub proof fn law_registered_completion_takes_one_value(
    profile: ClickHouseProfile,
    variable: Seq<char>,
)
    requires
        profile_valid(profile),
    ensures
        completion_for(profile.variable_completions@, variable) matches Some(cfg) ==> bind_count(
            cfg.sql@,
        ) == 1,
{
    lemma_completion_is_listed(profile.variable_completions@, variable);
}

proof fn lemma_completion_is_listed(
    completions: Seq<(String, CompletionConfig)>,
    variable: Seq<char>,
)
    ensures
        completion_for(completions, variable) matches Some(cfg) ==> exists|i: int|
            0 <= i < completions.len() && (#[trigger] completions[i]).1 == cfg,
    decreases completions.len(),
{
    if completions.len() > 0 {
        if completions[0].0@ == variable {
            assert(completions[0].1 == completion_for(completions, variable)->Some_0);
        } else {
            let rest = completions.skip(1);
            lemma_completion_is_listed(rest, variable);
            if completion_for(rest, variable) is Some {
                let cfg = completion_for(rest, variable)->Some_0;
                let i = choose|i: int| 0 <= i < rest.len() && (#[trigger] rest[i]).1 == cfg;
                assert(completions[i + 1].1 == cfg);
            }
        }
    }
}

/// A listing by key counts nothing; one by offset begins at zero, and then at the
/// number that the cursor is, and takes no other cursor.
pub proof fn law_offset_is_the_cursor(cursor: Seq<char>)
    ensures
        offset_of(ListQueryMode::Keyset, Some(cursor)) == Some(0nat),
        offset_of(ListQueryMode::Keyset, None) == Some(0nat),
        offset_of(ListQueryMode::Offset, None) == Some(0nat),
        natural_of(cursor) matches Some(n) ==> n <= 0xffff_ffff_ffff_ffff ==> offset_of(
            ListQueryMode::Offset,
            Some(cursor),
        ) == Some(n),
        natural_of(cursor) matches Some(n) ==> n > 0xffff_ffff_ffff_ffff ==> offset_of(
            ListQueryMode::Offset,
            Some(cursor),
        ) is None,
        natural_of(cursor) is None ==> offset_of(ListQueryMode::Offset, Some(cursor)) is None,
{
}

/// What the two placeholders of a listing take: by key the cursor, or null for the
/// first page, and then the page size; by offset the page size and then the offset.
pub proof fn law_listing_binds_cursor_and_page_size(
    page_size: u64,
    cursor: Seq<char>,
    offset: u64,
)
    ensures
        listing_binds(ListQueryMode::Keyset, page_size, Some(cursor), offset) == seq![
            BindView::Text(cursor),
            BindView::Int((page_size as i64) as int),
        ],
        listing_binds(ListQueryMode::Keyset, page_size, None, offset) == seq![
            BindView::Null,
            BindView::Int((page_size as i64) as int),
        ],
        forall|given: Option<Seq<char>>| #[trigger]
            listing_binds(ListQueryMode::Offset, page_size, given, offset) == seq![
                BindView::Int((page_size as i64) as int),
                BindView::Int((offset as i64) as int),
            ],
        page_size <= 1000 ==> (page_size as i64) as int == page_size as int,
        offset <= 0x7fff_ffff_ffff_ffff ==> (offset as i64) as int == offset as int,
{
}

/// A planned page runs the operator's statement, whole, for a page of the configured
/// size, from the offset that the cursor says.
pub proof fn law_page_runs_the_listing(
    plan: ListPlan,
    cfg: ListQueryConfig,
    cursor: Option<Seq<char>>,
)
    requires
        lists_page(plan, cfg, cursor),
    ensures
        plan.run.statement@ == cfg.sql@,
        plan.max_rows == cfg.page_size as usize,
        cfg.page_size <= 1000 ==> plan.max_rows == cfg.page_size,
        Some(plan.prior_offset as nat) == offset_of(cfg.mode, cursor),
        bind_views(plan.run.binds@) == listing_binds(
            cfg.mode,
            cfg.page_size,
            cursor,
            plan.prior_offset,
        ),
{
}

/// A cursor that is no offset is told as it was given.
pub proof fn law_wrong_cursor_is_told(cursor: Seq<char>)
    ensures
        cursor_error(cursor) == "offset-mode cursor '"@ + cursor
            + "' is not a non-negative integer"@,
{
}

/// Behind a full page of a listing by key the cursor is what the last row holds in the
/// cursor column: a text as it is, any other value but null as its compact JSON text;
/// and that is the first value that the next page binds.
pub proof fn law_keyset_pages_follow_the_last_row(
    rows: Seq<JsonView>,
    cfg: ListQueryConfig,
    prior_offset: nat,
    document: JsonView,
)
    requires
        cfg.mode == ListQueryMode::Keyset,
        0 < rows.len(),
        cfg.page_size <= rows.len(),
        under(rows[rows.len() - 1], trimmed(text_or_empty(cfg.cursor_column))) == Some(document),
    ensures
        document matches JsonView::Text(t) ==> next_page(rows, cfg, prior_offset) == Some(t)
            && listing_binds(
            cfg.mode,
            cfg.page_size,
            next_page(rows, cfg, prior_offset),
            0,
        )[0] == BindView::Text(t),
        !(document is Text) && !(document is Null) ==> next_page(rows, cfg, prior_offset) == Some(
            compact_json(document),
        ) && listing_binds(cfg.mode, cfg.page_size, next_page(rows, cfg, prior_offset), 0)[0]
            == BindView::Text(compact_json(document)),
        document is Null ==> next_page(rows, cfg, prior_offset) is None,
{
}

/// A page that is not full is the last one, and so is one by key whose last row has no
/// cursor column.
pub proof fn law_short_page_is_the_last(
    rows: Seq<JsonView>,
    cfg: ListQueryConfig,
    prior_offset: nat,
)
    ensures
        rows.len() < cfg.page_size ==> next_page(rows, cfg, prior_offset) is None,
        rows.len() == 0 ==> next_page(rows, cfg, prior_offset) is None,
        rows.len() > 0 && cfg.mode == ListQueryMode::Keyset && under(
            rows[rows.len() - 1],
            trimmed(text_or_empty(cfg.cursor_column)),
        ) is None ==> next_page(rows, cfg, prior_offset) is None,
{
}

/// A row with a text under `uri` is a resource, with whatever of the other texts it
/// holds; every other row is none.
pub proof fn law_row_with_a_uri_is_a_resource(row: JsonView)
    ensures
        row_entry(row) is Some <==> text_under(row, "uri"@) is Some,
        row_entry(row) matches Some(entry) ==> {
            &&& Some(entry.uri) == text_under(row, "uri"@)
            &&& entry.name == text_under(row, "name"@)
            &&& entry.description == text_under(row, "description"@)
            &&& entry.mime_type == text_under(row, "mime_type"@)
        },
{
}

/// A page holds a resource for each row that is one, in the order of the rows, however
/// many there are.
pub proof fn law_resources_are_listed_in_order(rows: Seq<JsonView>, row: JsonView)
    ensures
        row_entries(Seq::<JsonView>::empty()).len() == 0,
        row_entry(row) matches Some(entry) ==> row_entries(rows.push(row)) == row_entries(
            rows,
        ).push(entry),
        row_entry(row) is None ==> row_entries(rows.push(row)) == row_entries(rows),
{
    assert(rows.push(row).drop_last() =~= rows);
}

/// A resource is seen as what it holds, and a page resource by resource.
pub proof fn law_resources_are_seen_as_they_are(entries: Seq<ResourceEntry>, i: int)
    requires
        0 <= i < entries.len(),
    ensures
        entry_views(entries).len() == entries.len(),
        entry_views(entries)[i] == entries[i]@,
        entries[i]@.uri == entries[i].uri@,
        entries[i]@.name == string_text(entries[i].name),
        entries[i]@.description == string_text(entries[i].description),
        entries[i]@.mime_type == string_text(entries[i].mime_type),
{
}

/// The text in a cell: that of a string as it is, the compact JSON text of any other
/// value, and none for null and where the row has no such column.
pub proof fn law_cell_text(row: JsonView, column: Seq<char>, document: JsonView)
    ensures
        under(row, column) is None ==> cell_text(row, column) is None,
        under(row, column) == Some(JsonView::Null) ==> cell_text(row, column) is None,
        under(row, column) == Some(document) ==> {
            &&& document matches JsonView::Text(t) ==> cell_text(row, column) == Some(t)
            &&& !(document is Text) && !(document is Null) ==> cell_text(row, column) == Some(
                compact_json(document),
            )
        },
{
}

/// A variable has a completion where, and only where, one bears its name, and then the
/// first that does.
pub proof fn law_completion_is_found_by_name(
    completions: Seq<(String, CompletionConfig)>,
    variable: Seq<char>,
    i: int,
)
    ensures
        completion_for(completions, variable) is None <==> forall|k: int|
            0 <= k < completions.len() ==> (#[trigger] completions[k]).0@ != variable,
        0 <= i < completions.len() && completions[i].0@ == variable && (forall|k: int|
            0 <= k < i ==> (#[trigger] completions[k]).0@ != variable) ==> completion_for(
            completions,
            variable,
        ) == Some(completions[i].1),
    decreases completions.len(),
{
    if completions.len() > 0 {
        let rest = completions.skip(1);
        assert(forall|k: int| 0 <= k < rest.len() ==> rest[k] == completions[k + 1]);
        law_completion_is_found_by_name(rest, variable, i - 1);
        if completions[0].0@ != variable {
            if completion_for(rest, variable) is None {
                assert forall|k: int| 0 <= k < completions.len() implies (
                #[trigger] completions[k]).0@ != variable by {
                    if k > 0 {
                        assert(rest[k - 1].0@ != variable);
                    }
                }
            } else {
                let k = choose|k: int| 0 <= k < rest.len() && (#[trigger] rest[k]).0@ == variable;
                assert(completions[k + 1].0@ == variable);
            }
            if 0 <= i < completions.len() && completions[i].0@ == variable && (forall|k: int|
                0 <= k < i ==> (#[trigger] completions[k]).0@ != variable) {
                assert(i > 0);
                assert forall|k: int| 0 <= k < i - 1 implies (#[trigger] rest[k]).0@
                    != variable by {
                    assert(completions[k + 1].0@ != variable);
                }
            }
        } else {
            assert(completions[0].0@ == variable);
        }
    }
}

/// The cap on candidates is the configured one, and a hundred without one.
pub proof fn law_candidate_cap(cfg: CompletionConfig)
    ensures
        cfg.max_results matches Some(n) ==> candidate_cap(cfg) == n,
        cfg.max_results is None ==> candidate_cap(cfg) == 100,
{
}

/// The candidates of a column are the texts of its cells, row by row, in order; a row
/// without one adds none.
pub proof fn law_candidates_are_listed_in_order(
    rows: Seq<JsonView>,
    row: JsonView,
    column: Seq<char>,
)
    ensures
        column_texts(Seq::<JsonView>::empty(), column).len() == 0,
        cell_text(row, column) matches Some(t) ==> column_texts(rows.push(row), column)
            == column_texts(rows, column).push(t),
        cell_text(row, column) is None ==> column_texts(rows.push(row), column) == column_texts(
            rows,
            column,
        ),
{
    assert(rows.push(row).drop_last() =~= rows);
}

/// Candidates come from the first column of the first row, and from as many rows as the
/// cap allows: from all of them where they are no more.
pub proof fn law_candidates_come_from_the_first_column(rows: Seq<JsonView>, cap: nat)
    ensures
        rows.len() == 0 ==> leading_column(rows) is None && candidates(rows, cap).len() == 0,
        rows.len() > 0 ==> leading_column(rows) == first_name(rows[0]),
        leading_column(rows) matches Some(column) ==> candidates(rows, cap) == column_texts(
            first_rows(rows, cap),
            column,
        ),
        leading_column(rows) is None ==> candidates(rows, cap).len() == 0,
        rows.len() <= cap ==> first_rows(rows, cap) == rows,
        rows.len() > cap ==> first_rows(rows, cap).len() == cap,
        forall|i: int|
            0 <= i < first_rows(rows, cap).len() ==> #[trigger] first_rows(rows, cap)[i] == rows[i],
{
}

/// Behind a full page of a listing by offset the cursor is the number of all rows so
/// far.
pub proof fn law_offset_cursor_counts_the_rows(
    rows: Seq<JsonView>,
    cfg: ListQueryConfig,
    prior_offset: nat,
)
    requires
        cfg.mode == ListQueryMode::Offset,
        0 < rows.len(),
        cfg.page_size <= rows.len(),
    ensures
        next_page(rows, cfg, prior_offset) == Some(decimal_text(prior_offset + rows.len())),
{
}

} // verus!
