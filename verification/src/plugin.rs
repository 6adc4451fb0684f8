//! The backend plugin: the registered bindings, and for each call what is sent to
//! the server and how the call is answered.
use crate::call::{called_tool, payload_error, read_arguments, tool_name};
use crate::engine::{list_columns_columns, list_tables_columns};
use crate::envelope::{catalog_envelope_schema, envelope_schema, result_envelope_schema};
use crate::json::{
    json_empty_object, json_of, json_parse_bytes, no_members, object, put, string, JsonView, Members,
};
use crate::params::{
    arguments_referenced_by_params, first_seen, law_first_seen_keeps_each_name_once,
    open_object_schema, params_input_schema,
    referenced_words, texts, CompiledParam,
};
use crate::profile::{
    given_names, law_accepted_profile_is_valid, profile_of, profile_valid, spec_error,
    validate_spec, ClickHouseProfile, ReadOnlyVerdicts,
};
use crate::text::same_text;
use crate::types::{reads_catalog, ClickHouseBackendSpec, ClickHouseOperation};
use std::sync::Arc;
use vstd::prelude::*;
use vstd::string::*;

verus! {

/// Why a request to the plugin fails.
#[derive(Debug, Clone, PartialEq)]
pub enum BackendError {
    /// The configuration or the request is not accepted.
    InvalidSpec { message: String },
    /// The server could not be asked, or gave no answer.
    Transport { message: String },
    /// No binding of that name is registered.
    ProfileNotFound { backend_name: String },
}

/// What a plugin does for its host.
#[derive(Debug, Clone, Copy, PartialEq, Eq, Structural)]
pub enum PluginClass {
    /// It answers calls.
    Backend,
    /// It watches resources for changes.
    WatchStrategy,
}

/// How a plugin introduces itself.
#[derive(Debug, Clone, PartialEq)]
pub struct PluginManifest {
    pub id: String,
    pub name: String,
    pub plugin_class: PluginClass,
}

/// The registered bindings as one map by name.
pub open spec fn entries_map(entries: Seq<(String, Arc<ClickHouseProfile>)>) -> Map<
    Seq<char>,
    ClickHouseProfile,
>
    decreases entries.len(),
{
    if entries.len() == 0 {
        Map::empty()
    } else {
        entries_map(entries.drop_last()).insert(entries.last().0@, *entries.last().1)
    }
}

/// Whether no name stands twice.
pub open spec fn distinct_names(entries: Seq<(String, Arc<ClickHouseProfile>)>) -> bool {
    forall|i: int, j: int|
        0 <= i < j < entries.len() ==> (#[trigger] entries[i]).0@ != (#[trigger] entries[j]).0@
}

/// The ClickHouse backend: its registered bindings by name.
pub struct ClickHouseBackendPlugin {
    manifest: PluginManifest,
    profiles: Vec<(String, Arc<ClickHouseProfile>)>,
}

impl View for ClickHouseBackendPlugin {
    type V = Map<Seq<char>, ClickHouseProfile>;

    closed spec fn view(&self) -> Map<Seq<char>, ClickHouseProfile> {
        entries_map(self.profiles@)
    }
}

impl Default for ClickHouseBackendPlugin {
    fn default() -> (r: Self)
        ensures
            r.well_formed(),
            r@ == Map::<Seq<char>, ClickHouseProfile>::empty(),
    {
        Self::new()
    }
}

proof fn lemma_entry(entries: Seq<(String, Arc<ClickHouseProfile>)>, i: int)
    requires
        0 <= i < entries.len(),
        distinct_names(entries),
    ensures
        entries_map(entries).dom().contains(entries[i].0@),
        entries_map(entries)[entries[i].0@] == *entries[i].1,
    decreases entries.len(),
{
    if i < entries.len() - 1 {
        let rest = entries.drop_last();
        assert(rest[i] == entries[i]);
        assert(distinct_names(rest)) by {
            assert forall|a: int, b: int| 0 <= a < b < rest.len() implies (#[trigger] rest[a]).0@
                != (#[trigger] rest[b]).0@ by {
                assert(entries[a].0@ != entries[b].0@);
            }
        }
        lemma_entry(rest, i);
        assert(entries[i].0@ != entries[entries.len() - 1].0@);
    }
}

proof fn lemma_absent(entries: Seq<(String, Arc<ClickHouseProfile>)>, name: Seq<char>)
    requires
        forall|i: int| 0 <= i < entries.len() ==> (#[trigger] entries[i]).0@ != name,
    ensures
        !entries_map(entries).dom().contains(name),
    decreases entries.len(),
{
    if entries.len() > 0 {
        let rest = entries.drop_last();
        assert forall|i: int| 0 <= i < rest.len() implies (#[trigger] rest[i]).0@ != name by {
            assert(entries[i].0@ != name);
        }
        lemma_absent(rest, name);
        assert(entries[entries.len() - 1].0@ != name);
    }
}

proof fn lemma_replace(
    entries: Seq<(String, Arc<ClickHouseProfile>)>,
    i: int,
    entry: (String, Arc<ClickHouseProfile>),
)
    requires
        0 <= i < entries.len(),
        distinct_names(entries),
        entry.0@ == entries[i].0@,
    ensures
        entries_map(entries.update(i, entry)) == entries_map(entries).insert(entry.0@, *entry.1),
        distinct_names(entries.update(i, entry)),
    decreases entries.len(),
{
    let new = entries.update(i, entry);
    assert forall|a: int, b: int| 0 <= a < b < new.len() implies (#[trigger] new[a]).0@ != (
    #[trigger] new[b]).0@ by {
        assert(entries[a].0@ != entries[b].0@);
    }
    if i == entries.len() - 1 {
        assert(new.drop_last() =~= entries.drop_last());
        assert(entries_map(new) =~= entries_map(entries).insert(entry.0@, *entry.1));
    } else {
        let rest = entries.drop_last();
        assert(distinct_names(rest)) by {
            assert forall|a: int, b: int| 0 <= a < b < rest.len() implies (#[trigger] rest[a]).0@
                != (#[trigger] rest[b]).0@ by {
                assert(entries[a].0@ != entries[b].0@);
            }
        }
        assert(rest[i] == entries[i]);
        lemma_replace(rest, i, entry);
        assert(new.drop_last() =~= rest.update(i, entry));
        assert(entries[i].0@ != entries[entries.len() - 1].0@);
        assert(entries_map(new) =~= entries_map(entries).insert(entry.0@, *entry.1));
    }
}

/// Why a binding is not registered, if it is not: the first of the rules that it
/// breaks, and then what is wrong with its parameter expressions. A catalog
/// operation ignores those.
pub open spec fn registration_error(
    spec: ClickHouseBackendSpec,
    verdicts: ReadOnlyVerdicts,
    compiled: Result<Vec<CompiledParam>, String>,
) -> Option<Seq<char>> {
    match spec_error(spec, verdicts) {
        Some(message) => Some(message),
        None => match compiled {
            Err(message) => if reads_catalog(spec.operation) {
                None
            } else {
                Some(message@)
            },
            Ok(_) => None,
        },
    }
}

/// The parameter expressions that a binding is registered with: those that were
/// accepted, and none for a catalog operation.
pub open spec fn kept_params(
    operation: ClickHouseOperation,
    compiled: Result<Vec<CompiledParam>, String>,
) -> Seq<CompiledParam> {
    match compiled {
        Ok(params) => if reads_catalog(operation) {
            Seq::empty()
        } else {
            params@
        },
        Err(_) => Seq::empty(),
    }
}

/// A call that was taken in.
pub struct OpenCall {
    pub profile: Arc<ClickHouseProfile>,
    pub arguments: serde_json::Value,
    /// The tool that the call is for.
    pub tool_name: String,
}

/// The arguments that a payload holds, or the text of the error in it.
pub open spec fn payload_document(payload: Seq<u8>) -> Result<JsonView, Seq<char>> {
    if payload.len() == 0 {
        Ok(json_empty_object())
    } else {
        json_parse_bytes(payload)
    }
}

/// The JSON Schema of the rows of an operation.
pub open spec fn row_schema(operation: ClickHouseOperation) -> JsonView {
    match operation {
        ClickHouseOperation::Query => json_empty_object(),
        ClickHouseOperation::ListTables => open_object_schema(
            seq!["database"@, "name"@, "engine"@, "total_rows"@, "total_bytes"@],
        ),
        ClickHouseOperation::ListColumns => open_object_schema(
            seq!["database"@, "table"@, "name"@, "type"@, "position"@, "default_kind"@],
        ),
    }
}

/// The names of the arguments that a binding reads, each once.
pub open spec fn read_names(profile: ClickHouseProfile) -> Seq<Seq<char>> {
    if reads_catalog(profile.operation) {
        first_seen(
            given_names(profile.catalog_filters.database_arg, profile.catalog_filters.table_arg),
        )
    } else {
        first_seen(referenced_words(profile.compiled_params@))
    }
}

impl ClickHouseBackendPlugin {
    /// The plugin introduces itself as the ClickHouse backend, no name is registered
    /// twice, and every registered binding meets the rules.
    pub closed spec fn well_formed(&self) -> bool {
        &&& self.manifest.id@ == "dev.mcpg.backend.clickhouse"@
        &&& self.manifest.name@ == "ClickHouse Binding"@
        &&& self.manifest.plugin_class == PluginClass::Backend
        &&& distinct_names(self.profiles@)
        &&& forall|name: Seq<char>| #[trigger]
            self@.dom().contains(name) ==> profile_valid(self@[name])
    }

    /// Every registered binding meets the rules for registration.
    pub proof fn law_registered_profiles_are_valid(&self, name: Seq<char>)
        requires
            self.well_formed(),
            self@.dom().contains(name),
        ensures
            profile_valid(self@[name]),
    {
    }

    /// The plugin without bindings.
    pub fn new() -> (r: Self)
        ensures
            r.well_formed(),
            r@ == Map::<Seq<char>, ClickHouseProfile>::empty(),
    {
        ClickHouseBackendPlugin {
            manifest: PluginManifest {
                id: "dev.mcpg.backend.clickhouse".to_owned(),
                name: "ClickHouse Binding".to_owned(),
                plugin_class: PluginClass::Backend,
            },
            profiles: Vec::new(),
        }
    }

    /// How the plugin introduces itself.
    pub fn manifest(&self) -> (r: &PluginManifest)
        requires
            self.well_formed(),
        ensures
            r.id@ == "dev.mcpg.backend.clickhouse"@,
            r.name@ == "ClickHouse Binding"@,
            r.plugin_class == PluginClass::Backend,
    {
        &self.manifest
    }

    /// The kind of backend that the plugin serves.
    pub fn kind(&self) -> (r: &'static str)
        ensures
            r@ == "clickhouse"@,
    {
        "clickhouse"
    }

    /// The position of a registered binding.
    fn position(&self, backend_name: &str) -> (r: Option<usize>)
        ensures
            match r {
                Some(i) => i < self.profiles@.len() && self.profiles@[i as int].0@ == backend_name@,
                None => forall|i: int|
                    0 <= i < self.profiles@.len() ==> (#[trigger] self.profiles@[i]).0@
                        != backend_name@,
            },
    {
        let n: usize = self.profiles.len();
        for i in 0..n
            invariant
                n == self.profiles@.len(),
                forall|j: int|
                    0 <= j < i ==> (#[trigger] self.profiles@[j]).0@ != backend_name@,
        {
            if same_text(self.profiles[i].0.as_str(), backend_name) {
                return Some(i);
            }
        }
        None
    }

    /// Finds a registered binding.
    pub fn profile(&self, backend_name: &str) -> (r: Option<&Arc<ClickHouseProfile>>)
        requires
            self.well_formed(),
        ensures
            match r {
                Some(profile) => self@.dom().contains(backend_name@) && **profile
                    == self@[backend_name@],
                None => !self@.dom().contains(backend_name@),
            },
    {
        match self.position(backend_name) {
            Some(i) => {
                proof {
                    lemma_entry(self.profiles@, i as int);
                }
                let found: &Arc<ClickHouseProfile> = &self.profiles[i].1;
                Some(found)
            },
            None => {
                proof {
                    lemma_absent(self.profiles@, backend_name@);
                }
                None
            },
        }
    }

    /// Finds a registered binding, or says that there is none of that name.
    pub fn find_profile(&self, backend_name: &str) -> (r: Result<
        Arc<ClickHouseProfile>,
        BackendError,
    >)
        requires
            self.well_formed(),
        ensures
            match r {
                Ok(profile) => self@.dom().contains(backend_name@) && *profile
                    == self@[backend_name@],
                Err(error) => {
                    &&& !self@.dom().contains(backend_name@)
                    &&& error matches BackendError::ProfileNotFound { backend_name: given }
                    &&& given@ == backend_name@
                },
            },
    {
        match self.profile(backend_name) {
            Some(profile) => Ok(profile.clone()),
            None => Err(BackendError::ProfileNotFound { backend_name: backend_name.to_owned() }),
        }
    }

    /// Registers a binding, in place of an earlier one of the same name. A binding
    /// that breaks a rule, or runs a statement with parameter expressions that were
    /// not accepted, is refused with the first reason and leaves the plugin as it
    /// was.
    pub fn register_profile(
        &mut self,
        backend_name: &str,
        spec: ClickHouseBackendSpec,
        verdicts: &ReadOnlyVerdicts,
        compiled: Result<Vec<CompiledParam>, String>,
    ) -> (r: Result<(), BackendError>)
        requires
            old(self).well_formed(),
            spec.well_formed(),
            spec.variable_completions@.len() == verdicts.completions@.len(),
        ensures
            final(self).well_formed(),
            match registration_error(spec, *verdicts, compiled) {
                Some(message) => {
                    &&& r matches Err(BackendError::InvalidSpec { message: given })
                    &&& given@ == message
                    &&& final(self)@ == old(self)@
                },
                None => {
                    &&& r is Ok
                    &&& final(self)@ == old(self)@.insert(
                        backend_name@,
                        final(self)@[backend_name@],
                    )
                    &&& profile_of(
                        final(self)@[backend_name@],
                        spec,
                        kept_params(spec.operation, compiled),
                    )
                },
            },
    {
        match validate_spec(&spec, verdicts) {
            Ok(_) => {},
            Err(message) => {
                return Err(BackendError::InvalidSpec { message });
            },
        }
        let params: Vec<CompiledParam> = if spec.operation.is_catalog() {
            Vec::new()
        } else {
            match compiled {
                Ok(params) => params,
                Err(message) => {
                    return Err(BackendError::InvalidSpec { message });
                },
            }
        };
        assert(params@ =~= kept_params(spec.operation, compiled));
        let ghost binding = spec;
        let profile = ClickHouseProfile::from_spec(spec, params);
        proof {
            law_accepted_profile_is_valid(profile, binding, *verdicts, params@);
        }
        let found = self.position(backend_name);
        let ghost before = self.profiles@;
        let entry: (String, Arc<ClickHouseProfile>) = (backend_name.to_owned(), Arc::new(profile));
        match found {
            Some(i) => {
                proof {
                    lemma_replace(before, i as int, entry);
                }
                self.profiles.set(i, entry);
            },
            None => {
                self.profiles.push(entry);
                assert(self.profiles@.drop_last() =~= before);
                assert(distinct_names(self.profiles@)) by {
                    let after = self.profiles@;
                    assert forall|a: int, b: int| 0 <= a < b < after.len() implies (#[trigger]
                    after[a]).0@ != (#[trigger] after[b]).0@ by {
                        assert(after[a] == before[a]);
                        if b < before.len() {
                            assert(after[b] == before[b]);
                        }
                    }
                }
            },
        }
        assert(self@ == old(self)@.insert(backend_name@, profile));
        assert forall|name: Seq<char>| #[trigger] self@.dom().contains(name) implies profile_valid(
            self@[name],
        ) by {
            if name != backend_name@ {
                assert(old(self)@.dom().contains(name));
            }
        }
        Ok(())
    }

    /// Takes a call in: finds the binding, reads the arguments and finds the tool
    /// that the call is for. A name that is not registered refuses the call before
    /// its payload is looked at.
    pub fn open_call(
        &self,
        backend_name: &str,
        payload: &[u8],
        headers: &[(String, String)],
    ) -> (r: Result<OpenCall, BackendError>)
        requires
            self.well_formed(),
        ensures
            if !self@.dom().contains(backend_name@) {
                &&& r matches Err(BackendError::ProfileNotFound { backend_name: given })
                &&& given@ == backend_name@
            } else {
                match payload_document(payload@) {
                    Ok(document) => {
                        &&& r matches Ok(call)
                        &&& *call.profile == self@[backend_name@]
                        &&& json_of(call.arguments) == document
                        &&& call.tool_name@ == called_tool(headers@, backend_name@)
                    },
                    Err(message) => {
                        &&& r matches Err(BackendError::InvalidSpec { message: given })
                        &&& given@ == payload_error(message)
                    },
                }
            },
    {
        let profile = match self.find_profile(backend_name) {
            Ok(profile) => profile,
            Err(error) => {
                return Err(error);
            },
        };
        let arguments = match read_arguments(payload) {
            Ok(arguments) => arguments,
            Err(error) => {
                return Err(error);
            },
        };
        Ok(OpenCall { profile, arguments, tool_name: tool_name(headers, backend_name) })
    }

    /// What is told of every call for the audit.
    pub fn audit_metadata(&self, _backend_name: &str) -> (r: serde_json::Value)
        ensures
            json_of(r) == JsonView::Fields(
                Members::none().with("clickhouse.transport"@, JsonView::Text("plugin"@)),
            ),
    {
        let mut members = no_members();
        put(&mut members, "clickhouse.transport", string("plugin"));
        object(members)
    }

    /// The JSON Schema of the envelope that a binding answers with. The rows of the
    /// catalog operations have known columns; those of any other binding, and of a
    /// name that is not registered, are of any shape.
    pub fn output_schema(&self, backend_name: &str) -> (r: Option<serde_json::Value>)
        requires
            self.well_formed(),
        ensures
            r matches Some(schema) && json_of(schema) == envelope_schema(
                row_schema(
                    if self@.dom().contains(backend_name@) {
                        self@[backend_name@].operation
                    } else {
                        ClickHouseOperation::Query
                    },
                ),
            ),
    {
        let operation: ClickHouseOperation = match self.profile(backend_name) {
            Some(profile) => profile.operation,
            None => ClickHouseOperation::Query,
        };
        Some(
            match operation {
                ClickHouseOperation::Query => result_envelope_schema(),
                ClickHouseOperation::ListTables => catalog_envelope_schema(
                    list_tables_columns().as_slice(),
                ),
                ClickHouseOperation::ListColumns => catalog_envelope_schema(
                    list_columns_columns().as_slice(),
                ),
            },
        )
    }

    /// The JSON Schema of the arguments of a binding: an open object that names the
    /// arguments which the binding reads.
    pub fn input_schema(&self, backend_name: &str) -> (r: Option<serde_json::Value>)
        requires
            self.well_formed(),
        ensures
            r matches Some(schema) && json_of(schema) == open_object_schema(
                if self@.dom().contains(backend_name@) {
                    read_names(self@[backend_name@])
                } else {
                    Seq::empty()
                },
            ),
    {
        let names: Vec<String> = match self.profile(backend_name) {
            Some(profile) => if profile.operation.is_catalog() {
                profile.catalog_filters.argument_names()
            } else {
                arguments_referenced_by_params(profile.compiled_params.as_slice())
            },
            None => Vec::new(),
        };
        assert(names@.len() == 0 ==> texts(names@) =~= Seq::<Seq<char>>::empty());
        Some(params_input_schema(names.as_slice()))
    }
}

/// A binding is registered where, and only where, it breaks no rule and, unless it reads
/// the catalog, its expressions were accepted; a broken rule is told before a refused
/// expression.
pub proof fn law_when_a_binding_is_registered(
    spec: ClickHouseBackendSpec,
    verdicts: ReadOnlyVerdicts,
    compiled: Result<Vec<CompiledParam>, String>,
)
    ensures
        registration_error(spec, verdicts, compiled) is None <==> spec_error(spec, verdicts) is None
            && (compiled is Ok || spec.operation != ClickHouseOperation::Query),
        spec_error(spec, verdicts) is Some ==> registration_error(spec, verdicts, compiled)
            == spec_error(spec, verdicts),
        spec_error(spec, verdicts) is None && spec.operation == ClickHouseOperation::Query ==> (
        compiled matches Err(message) ==> registration_error(spec, verdicts, compiled) == Some(
            message@,
        )),
{
}

/// A binding keeps the expressions that were accepted, and a catalog operation none.
pub proof fn law_accepted_expressions_are_kept(params: Vec<CompiledParam>, reason: String)
    ensures
        kept_params(ClickHouseOperation::Query, Ok(params)) == params@,
        kept_params(ClickHouseOperation::ListTables, Ok(params)).len() == 0,
        kept_params(ClickHouseOperation::ListColumns, Ok(params)).len() == 0,
        kept_params(ClickHouseOperation::ListTables, Err(reason)).len() == 0,
        kept_params(ClickHouseOperation::ListColumns, Err(reason)).len() == 0,
{
}

/// An empty payload holds an object without members, and any other what it says.
pub proof fn law_payload_holds_the_arguments(payload: Seq<u8>)
    ensures
        payload.len() == 0 ==> payload_document(payload) == Ok::<JsonView, Seq<char>>(
            JsonView::Fields(Members { pairs: Seq::empty() }),
        ),
        payload.len() > 0 ==> payload_document(payload) == json_parse_bytes(payload),
{
}

/// The schema of the rows names the columns of a catalog operation, and says nothing of
/// the rows of a statement.
pub proof fn law_row_schema_names_the_columns(column: Seq<char>)
    ensures
        row_schema(ClickHouseOperation::Query) == JsonView::Fields(
            Members { pairs: Seq::empty() },
        ),
        row_schema(ClickHouseOperation::ListTables) == open_object_schema(
            seq!["database"@, "name"@, "engine"@, "total_rows"@, "total_bytes"@],
        ),
        row_schema(ClickHouseOperation::ListColumns) == open_object_schema(
            seq!["database"@, "table"@, "name"@, "type"@, "position"@, "default_kind"@],
        ),
{
}

/// The arguments that a binding reads: for a statement those that its expressions refer
/// to, for a catalog operation those that its filters are named after; each once.
pub proof fn law_read_arguments(profile: ClickHouseProfile, name: Seq<char>)
    ensures
        profile.operation == ClickHouseOperation::Query ==> (read_names(profile).contains(name)
            <==> referenced_words(profile.compiled_params@).contains(name)),
        profile.operation != ClickHouseOperation::Query ==> (read_names(profile).contains(name)
            <==> given_names(
            profile.catalog_filters.database_arg,
            profile.catalog_filters.table_arg,
        ).contains(name)),
        read_names(profile).no_duplicates(),
        profile.operation == ClickHouseOperation::Query ==> read_names(profile) == first_seen(
            referenced_words(profile.compiled_params@),
        ),
        profile.operation != ClickHouseOperation::Query ==> read_names(profile) == first_seen(
            given_names(profile.catalog_filters.database_arg, profile.catalog_filters.table_arg),
        ),
{
    law_first_seen_keeps_each_name_once(referenced_words(profile.compiled_params@));
    law_first_seen_keeps_each_name_once(
        given_names(profile.catalog_filters.database_arg, profile.catalog_filters.table_arg),
    );
}

/// A registered binding is found under its name, and registering another one leaves it
/// there.
pub proof fn law_entries_are_found_by_name(
    entries: Seq<(String, Arc<ClickHouseProfile>)>,
    name: Seq<char>,
    i: int,
)
    requires
        distinct_names(entries),
    ensures
        0 <= i < entries.len() ==> entries_map(entries).dom().contains(entries[i].0@)
            && entries_map(entries)[entries[i].0@] == *entries[i].1,
        (forall|k: int| 0 <= k < entries.len() ==> (#[trigger] entries[k]).0@ != name)
            ==> !entries_map(entries).dom().contains(name),
{
    if 0 <= i < entries.len() {
        lemma_entry(entries, i);
    }
    if forall|k: int| 0 <= k < entries.len() ==> (#[trigger] entries[k]).0@ != name {
        lemma_absent(entries, name);
    }
}

} // verus!
