//! Watching a resource for changes: a read-only query is run again and again, and
//! a change of its first value is signalled.
use crate::driver::{client_of, query_of};
use crate::engine::{
    binding_client, build_client, failure_text, filled_lines, line_documents, prepare_query,
    request_view, response_error, setting_texts, settle, DriverFailure, DriverReply, PreparedQuery,
    QueryOutcome,
};
use crate::json::{
    as_plain_text, compact_json, first_member, first_name, json_each, plain_text, under, JsonView,
    Members,
};
use crate::params::{bind_views, BindView, ChBind};
use crate::plugin::{PluginClass, PluginManifest};
use crate::profile::{borrow_text, either, error_if, string_text, verdict_error};
use crate::text::{blank, is_blank, same_text};
use crate::types::{ClickHouseAuth, ClickHouseTls};
use vstd::prelude::*;
use vstd::string::*;
use vstd::utf8::decode_utf8;

verus! {

/// The id of the plugin.
pub const PLUGIN_ID: &'static str = "dev.mcpg.backend.clickhouse";

/// The kind of watch that this strategy serves.
pub const WATCH_KIND: &'static str = "clickhouse_poll";

/// How long it is from one tick to the next unless the watch says otherwise.
pub fn default_interval_ms() -> (r: u64)
    ensures
        r == 60_000,
{
    60_000
}

/// How long a tick may take unless the watch says otherwise.
pub fn default_timeout_ms() -> (r: u64)
    ensures
        r == 10_000,
{
    10_000
}

/// A watch as it is configured.
#[derive(Debug, Clone)]
pub struct WatchSpec {
    pub url: String,
    pub database: Option<String>,
    pub auth: ClickHouseAuth,
    pub tls: ClickHouseTls,
    /// The read-only query whose first value is watched.
    pub tracking_query: String,
    /// The milliseconds from one tick to the next.
    pub interval_ms: u64,
    /// The milliseconds that a tick may take.
    pub timeout_ms: u64,
}

/// Why a watch does not start.
#[derive(Debug, Clone, PartialEq)]
pub enum WatchError {
    /// The configuration is not accepted.
    InvalidSpec { message: String },
    /// The watch could not be set up.
    Subscribe { message: String },
}

/// Why a watch is refused, if it is; `guard` is what the read-only guard says of
/// its query.
pub open spec fn watch_error(spec: WatchSpec, guard: Result<(), String>) -> Option<Seq<char>> {
    either(
        error_if(is_blank(spec.url@), "url must not be empty"@),
        either(
            error_if(is_blank(spec.tracking_query@), "tracking_query must not be empty"@),
            either(
                verdict_error(guard),
                error_if(
                    !spec.tls.verify_peer,
                    "clickhouse tls.verify_peer=false is not supported; configure a trusted CA instead"@,
                ),
            ),
        ),
    )
}

/// A watch that was accepted.
pub struct Watcher {
    pub client: clickhouse::Client,
    pub tracking_query: String,
    pub interval_ms: u64,
    pub timeout_ms: u64,
}

/// The milliseconds from one tick to the next: as configured, but never fewer than
/// 250.
pub open spec fn poll_interval(interval_ms: u64) -> u64 {
    if interval_ms < 250 {
        250
    } else {
        interval_ms
    }
}

/// Accepts a watch that names a server and a read-only query and leaves the
/// verification of the server's certificate on. No socket is opened.
pub fn start_watch(spec: WatchSpec, guard: Result<(), String>) -> (r: Result<Watcher, WatchError>)
    ensures
        match watch_error(spec, guard) {
            Some(message) => {
                &&& r matches Err(WatchError::InvalidSpec { message: given })
                &&& given@ == message
            },
            None => {
                &&& r matches Ok(watcher)
                &&& client_of(watcher.client) == binding_client(
                    spec.url@,
                    string_text(spec.database),
                    string_text(spec.auth.username),
                    string_text(spec.auth.password),
                )
                &&& watcher.tracking_query == spec.tracking_query
                &&& watcher.interval_ms == poll_interval(spec.interval_ms)
                &&& watcher.timeout_ms == spec.timeout_ms
            },
        },
{
    if blank(spec.url.as_str()) {
        return Err(WatchError::InvalidSpec { message: "url must not be empty".to_owned() });
    }
    if blank(spec.tracking_query.as_str()) {
        return Err(
            WatchError::InvalidSpec { message: "tracking_query must not be empty".to_owned() },
        );
    }
    if let Err(message) = guard {
        return Err(WatchError::InvalidSpec { message });
    }
    if !spec.tls.verify_peer {
        return Err(
            WatchError::InvalidSpec {
                message:
                    "clickhouse tls.verify_peer=false is not supported; configure a trusted CA instead".to_owned(),
            },
        );
    }
    let client = build_client(
        spec.url.as_str(),
        borrow_text(&spec.database),
        borrow_text(&spec.auth.username),
        borrow_text(&spec.auth.password),
    );
    let interval_ms: u64 = if spec.interval_ms < 250 {
        250
    } else {
        spec.interval_ms
    };
    Ok(
        Watcher {
            client,
            tracking_query: spec.tracking_query,
            interval_ms,
            timeout_ms: spec.timeout_ms,
        },
    )
}

/// The value that is watched, in plain text: the first column of the first row;
/// none where there is no row, no column or no value.
pub open spec fn high_water(rows: Seq<JsonView>) -> Option<Seq<char>> {
    if rows.len() == 0 {
        None
    } else {
        match first_name(rows[0]) {
            Some(column) => match under(rows[0], column) {
                Some(document) => plain_text(document),
                None => None,
            },
            None => None,
        }
    }
}

/// Reads the value that is watched off the outcome of the query.
pub fn cursor_from_outcome(outcome: &QueryOutcome) -> (r: Option<String>)
    ensures
        string_text(r) == high_water(json_each(outcome.rows@)),
{
    if outcome.rows.len() == 0 {
        return None;
    }
    match first_member(&outcome.rows[0]) {
        Some((_, found)) => as_plain_text(found),
        None => None,
    }
}

impl Watcher {
    /// Prepares the query of one tick, held to reading.
    pub fn prepare_tick(&self) -> (r: PreparedQuery)
        ensures
            query_of(r.query) == request_view(
                client_of(self.client),
                self.tracking_query@,
                Seq::empty(),
                self.timeout_ms as nat,
                Seq::empty(),
            ),
            r.fetches,
    {
        let bound: Vec<ChBind> = Vec::new();
        let settings: Vec<(String, String)> = Vec::new();
        assert(bind_views(bound@) =~= Seq::<BindView>::empty());
        assert(setting_texts(settings@) =~= Seq::<(Seq<char>, Seq<char>)>::empty());
        prepare_query(
            &self.client,
            self.tracking_query.as_str(),
            bound.as_slice(),
            true,
            self.timeout_ms,
            settings.as_slice(),
        )
    }
}

/// Reads the value that is watched off what the driver did with the query of one
/// tick.
pub fn read_tick(reply: Result<DriverReply, DriverFailure>) -> (r: Result<Option<String>, String>)
    ensures
        match reply {
            Err(failure) => {
                &&& r matches Err(message)
                &&& message@ == failure_text(failure)
            },
            Ok(DriverReply::Executed) => r matches Ok(None),
            Ok(DriverReply::Fetched(bytes)) => match response_error(bytes@) {
                Some(error) => {
                    &&& r matches Err(message)
                    &&& message@ == error
                },
                None => {
                    &&& r matches Ok(cursor)
                    &&& string_text(cursor) == high_water(
                        line_documents(filled_lines(decode_utf8(bytes@))),
                    )
                },
            },
        },
{
    match settle(reply, 1) {
        Ok(outcome) => Ok(cursor_from_outcome(&outcome)),
        Err(message) => Err(message),
    }
}

/// What a watch remembers from tick to tick.
#[derive(Debug, Clone)]
pub struct PollState {
    /// The value that was last seen, if any was.
    pub last: Option<String>,
}

/// What a watch remembers after a tick that saw `seen`, and whether it signals a
/// change: not before it has seen a first value, and then whenever the value is
/// another one.
pub open spec fn poll_step(last: Option<Seq<char>>, seen: Option<Seq<char>>) -> (
    Option<Seq<char>>,
    bool,
) {
    match seen {
        None => (last, false),
        Some(value) => (Some(value), last is Some && last != Some(value)),
    }
}

/// What a tick saw: nothing where it failed.
pub open spec fn tick_value(tick: Result<Option<String>, String>) -> Option<Seq<char>> {
    match tick {
        Ok(cursor) => string_text(cursor),
        Err(_) => None,
    }
}

impl PollState {
    /// A watch that has seen nothing yet.
    pub fn new() -> (r: Self)
        ensures
            r.last is None,
    {
        PollState { last: None }
    }

    /// Takes one tick in and says whether it signals a change. A tick that failed,
    /// and one that saw no value, signals nothing and is forgotten.
    pub fn observe(&mut self, tick: Result<Option<String>, String>) -> (r: bool)
        ensures
            (string_text(final(self).last), r) == poll_step(
                string_text(old(self).last),
                tick_value(tick),
            ),
    {
        let value: String = match tick {
            Ok(Some(value)) => value,
            Ok(None) => {
                return false;
            },
            Err(_) => {
                return false;
            },
        };
        let changed: bool = match &self.last {
            Some(last) => !same_text(last.as_str(), value.as_str()),
            None => false,
        };
        self.last = Some(value);
        changed
    }
}

/// How many changes a watch signals over a row of ticks.
pub open spec fn signals(last: Option<Seq<char>>, ticks: Seq<Option<Seq<char>>>) -> nat
    decreases ticks.len(),
{
    if ticks.len() == 0 {
        0
    } else {
        let (next, signal) = poll_step(last, ticks[0]);
        signals(next, ticks.skip(1)) + if signal {
            1nat
        } else {
            0nat
        }
    }
}

/// Whether every tick that saw a value saw `value`.
pub open spec fn steady(ticks: Seq<Option<Seq<char>>>, value: Seq<char>) -> bool {
    forall|i: int| 0 <= i < ticks.len() ==> (#[trigger] ticks[i]) is None || ticks[i] == Some(value)
}

/// A watch never signals while the value stays as it is, not at its start either,
/// whatever ticks fail or see no value in between.
pub proof fn law_steady_value_is_silent(
    last: Option<Seq<char>>,
    ticks: Seq<Option<Seq<char>>>,
    value: Seq<char>,
)
    requires
        last is None || last == Some(value),
        steady(ticks, value),
    ensures
        signals(last, ticks) == 0,
    decreases ticks.len(),
{
    if ticks.len() > 0 {
        assert(ticks[0] is None || ticks[0] == Some(value));
        assert forall|i: int| 0 <= i < ticks.skip(1).len() implies (#[trigger] ticks.skip(1)[i]) is None
            || ticks.skip(1)[i] == Some(value) by {
            assert(ticks[i + 1] is None || ticks[i + 1] == Some(value));
        }
        law_steady_value_is_silent(poll_step(last, ticks[0]).0, ticks.skip(1), value);
    }
}

/// A change of the value is signalled once: by the tick that first sees the new
/// value, and by none of those that see it again.
pub proof fn law_change_is_signalled_once(
    old_value: Seq<char>,
    new_value: Seq<char>,
    later: Seq<Option<Seq<char>>>,
)
    requires
        old_value != new_value,
        steady(later, new_value),
    ensures
        signals(Some(old_value), seq![Some(new_value)] + later) == 1,
{
    let ticks = seq![Some(new_value)] + later;
    assert(ticks.skip(1) =~= later);
    law_steady_value_is_silent(Some(new_value), later, new_value);
}

/// A watch that is accepted runs a query that the read-only guard has passed, and
/// verifies the server's certificate.
pub proof fn law_accepted_watch_is_guarded(spec: WatchSpec, guard: Result<(), String>)
    requires
        watch_error(spec, guard) is None,
    ensures
        guard is Ok,
        spec.tls.verify_peer,
        !is_blank(spec.url@),
        !is_blank(spec.tracking_query@),
{
}

/// The strategy that watches by polling.
pub struct ClickHouseWatchCdylib {
    manifest: PluginManifest,
}

impl ClickHouseWatchCdylib {
    /// The strategy introduces itself as the ClickHouse watch.
    pub closed spec fn well_formed(&self) -> bool {
        &&& self.manifest.id@ == PLUGIN_ID@
        &&& self.manifest.name@ == "ClickHouse Poll Watch Strategy"@
        &&& self.manifest.plugin_class == PluginClass::WatchStrategy
    }

    /// The strategy. It takes nothing from the configuration of the plugin: every
    /// watch brings its own.
    pub fn from_host_config(_config_json: &str) -> (r: Self)
        ensures
            r.well_formed(),
    {
        ClickHouseWatchCdylib {
            manifest: PluginManifest {
                id: PLUGIN_ID.to_owned(),
                name: "ClickHouse Poll Watch Strategy".to_owned(),
                plugin_class: PluginClass::WatchStrategy,
            },
        }
    }

    /// How the strategy introduces itself.
    pub fn manifest(&self) -> (r: &PluginManifest)
        requires
            self.well_formed(),
        ensures
            r.id@ == PLUGIN_ID@,
            r.name@ == "ClickHouse Poll Watch Strategy"@,
            r.plugin_class == PluginClass::WatchStrategy,
    {
        &self.manifest
    }

    /// The kind of watch that the strategy serves.
    pub fn kind(&self) -> (r: &'static str)
        ensures
            r@ == WATCH_KIND@,
    {
        WATCH_KIND
    }
}

/// What a watch remembers and when it signals, for each kind of tick: one that failed or
/// saw no value changes nothing and signals nothing; the first value is remembered and
/// not signalled; a later one is remembered, and signalled where it is another.
pub proof fn law_what_a_tick_does(last: Option<Seq<char>>, old_value: Seq<char>, value: Seq<char>)
    ensures
        poll_step(last, None) == (last, false),
        poll_step(None, Some(value)) == (Some(value), false),
        poll_step(Some(old_value), Some(value)).0 == Some(value),
        poll_step(Some(old_value), Some(value)).1 <==> old_value != value,
{
}

/// Whether no tick saw a value.
pub open spec fn all_silent(ticks: Seq<Option<Seq<char>>>) -> bool {
    forall|i: int| 0 <= i < ticks.len() ==> (#[trigger] ticks[i]) is None
}

/// Ticks that failed or saw no value are as if they had not been, however many they
/// are.
pub proof fn law_silent_ticks_are_as_if_not_there(
    last: Option<Seq<char>>,
    silent: Seq<Option<Seq<char>>>,
    later: Seq<Option<Seq<char>>>,
)
    requires
        all_silent(silent),
    ensures
        signals(last, silent + later) == signals(last, later),
    decreases silent.len(),
{
    if silent.len() == 0 {
        assert(silent + later =~= later);
    } else {
        let ticks = silent + later;
        assert(silent[0] is None);
        assert(ticks[0] == silent[0]);
        assert(ticks.skip(1) =~= silent.skip(1) + later);
        assert forall|i: int| 0 <= i < silent.skip(1).len() implies (
        #[trigger] silent.skip(1)[i]) is None by {
            assert(silent[i + 1] is None);
        }
        law_silent_ticks_are_as_if_not_there(last, silent.skip(1), later);
    }
}

/// A change is signalled once though ticks before it failed or saw no value: the value
/// from before is still remembered.
pub proof fn law_change_is_signalled_after_failed_ticks(
    old_value: Seq<char>,
    new_value: Seq<char>,
    silent: Seq<Option<Seq<char>>>,
    later: Seq<Option<Seq<char>>>,
)
    requires
        old_value != new_value,
        all_silent(silent),
        steady(later, new_value),
    ensures
        signals(Some(old_value), silent + seq![Some(new_value)] + later) == 1,
{
    assert(silent + seq![Some(new_value)] + later =~= silent + (seq![Some(new_value)] + later));
    law_silent_ticks_are_as_if_not_there(
        Some(old_value),
        silent,
        seq![Some(new_value)] + later,
    );
    law_change_is_signalled_once(old_value, new_value, later);
}

/// Every change is signalled: over ticks that all see a value, there are as many
/// signals as there are ticks that saw another value than the tick before.
pub proof fn law_every_change_is_signalled(
    value: Seq<char>,
    next: Seq<char>,
    later: Seq<Option<Seq<char>>>,
)
    ensures
        signals(Some(value), Seq::empty()) == 0,
        signals(None, seq![Some(value)] + later) == signals(Some(value), later),
        signals(Some(value), seq![Some(next)] + later) == signals(Some(next), later) + (if value
            != next {
            1nat
        } else {
            0nat
        }),
{
    assert((seq![Some(value)] + later).skip(1) =~= later);
    assert((seq![Some(next)] + later).skip(1) =~= later);
}

/// What a tick saw: the value that was read, and nothing where it failed or read none.
pub proof fn law_what_a_tick_saw(value: String, reason: String)
    ensures
        tick_value(Ok(Some(value))) == Some(value@),
        tick_value(Ok(None)) is None,
        tick_value(Err(reason)) is None,
{
}

/// The value that is watched is that of the first column of the first row: a text as it
/// is, any other value but null as its compact JSON text; none without a row or a
/// column and for null. Later rows and columns are of no account.
pub proof fn law_watched_value_is_the_first_cell(
    name: Seq<char>,
    document: JsonView,
    columns: Seq<(Seq<char>, JsonView)>,
    later: Seq<JsonView>,
)
    ensures
        ({
            let row = JsonView::Fields(Members { pairs: seq![(name, document)] + columns });
            let seen = high_water(seq![row] + later);
            &&& document matches JsonView::Text(t) ==> seen == Some(t)
            &&& document is Null ==> seen is None
            &&& !(document is Text) && !(document is Null) ==> seen == Some(
                compact_json(document),
            )
        }),
        high_water(Seq::empty()) is None,
        !(document is Fields) ==> high_water(seq![document] + later) is None,
        high_water(seq![JsonView::Fields(Members { pairs: Seq::empty() })] + later) is None,
{
    let row = JsonView::Fields(Members { pairs: seq![(name, document)] + columns });
    assert((seq![row] + later)[0] == row);
    assert((seq![(name, document)] + columns)[0] == (name, document));
    let bare = JsonView::Fields(Members { pairs: Seq::empty() });
    assert((seq![bare] + later)[0] == bare);
    assert((seq![document] + later)[0] == document);
}

/// A watch polls no faster than every 250 milliseconds, and else as it is configured.
pub proof fn law_poll_interval_has_a_floor(interval_ms: u64)
    ensures
        poll_interval(interval_ms) >= 250,
        poll_interval(interval_ms) >= interval_ms,
        poll_interval(interval_ms) == 250 || poll_interval(interval_ms) == interval_ms,
{
}

/// A watch is accepted where, and only where, it names a server and a query, the guard
/// has passed the query and the certificate is verified; else the first fault is told,
/// in this order.
pub proof fn law_watch_is_accepted(spec: WatchSpec, guard: Result<(), String>)
    ensures
        watch_error(spec, guard) is None <==> !is_blank(spec.url@) && !is_blank(
            spec.tracking_query@,
        ) && guard is Ok && spec.tls.verify_peer,
        is_blank(spec.url@) ==> watch_error(spec, guard) == Some("url must not be empty"@),
        !is_blank(spec.url@) && is_blank(spec.tracking_query@) ==> watch_error(spec, guard) == Some(
            "tracking_query must not be empty"@,
        ),
        !is_blank(spec.url@) && !is_blank(spec.tracking_query@) ==> (guard matches Err(
            message,
        ) ==> watch_error(spec, guard) == Some(message@)),
        !is_blank(spec.url@) && !is_blank(spec.tracking_query@) && guard is Ok
            && !spec.tls.verify_peer ==> watch_error(spec, guard) == Some(
            "clickhouse tls.verify_peer=false is not supported; configure a trusted CA instead"@,
        ),
{
}

} // verus!
