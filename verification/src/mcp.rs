//! The MCP server's catalogue: tools, resources, resource templates and prompts, the
//! session record, and the settings of the MCP endpoint.
use crate::text::{str_eq, strs_view, strings_view, to_strings};
use crate::text::{opt_text};
use crate::json::{field, member, text_of, Json};
use vstd::prelude::*;
use vstd::string::StringExecFns;

verus! {

// ---------------------------------------------------------------- settings and session

/// How the MCP server is reached.
#[derive(Debug, Clone, Copy, PartialEq, Eq, Structural)]
pub enum McpTransport {
    Stdio,
    Sse,
    Disabled,
}

impl Default for McpTransport {
    fn default() -> (r: Self)
        ensures
            r == McpTransport::Disabled,
    {
        McpTransport::Disabled
    }
}

/// Settings persisted for the MCP server.
#[derive(Debug, Clone, Copy, PartialEq, Eq, Structural)]
pub struct McpServerSettings {
    pub enabled: bool,
    pub transport: McpTransport,
}

impl Default for McpServerSettings {
    fn default() -> (r: Self)
        ensures
            !r.enabled,
            r.transport == McpTransport::Disabled,
    {
        McpServerSettings { enabled: false, transport: McpTransport::Disabled }
    }
}

/// Transport chosen in a settings request.
#[derive(Debug, Clone, Copy, PartialEq, Eq, Structural)]
pub enum McpTransportDto {
    Stdio,
    Sse,
}

/// Settings request from the user interface.
#[derive(Debug, Clone, Copy, PartialEq, Eq, Structural)]
pub struct McpSettingsDto {
    pub enabled: bool,
    pub transport: McpTransportDto,
}

/// State of one MCP connection.
#[derive(Debug, Clone)]
pub struct McpSession {
    pub initialized: bool,
    pub client_info: Option<String>,
}

impl McpSession {
    /// A session that has not been initialised and knows no client.
    pub fn new() -> (r: Self)
        ensures
            !r.initialized,
            r.client_info is None,
    {
        McpSession { initialized: false, client_info: None }
    }
}

/// Outcome of one tool execution.
#[derive(Debug, Clone)]
pub enum ToolExecutionResult {
    Success(String),
    Failure(String),
}

/// `top_k` when it lies in 1..=50, otherwise the default.
pub fn normalize_mcp_top_k(top_k: Option<usize>, default_value: usize) -> (r: usize)
    ensures
        r == match top_k {
            Some(v) => if 1 <= v <= 50 { v } else { default_value },
            None => default_value,
        },
{
    match top_k {
        Some(v) => if 1 <= v && v <= 50 { v } else { default_value },
        None => default_value,
    }
}

// ---------------------------------------------------------------- JSON-RPC errors

/// A JSON-RPC error object.
#[derive(Debug, Clone)]
pub struct JsonRpcError {
    pub code: i64,
    pub message: String,
}

impl JsonRpcError {
    pub fn invalid_request(message: &str) -> (r: Self)
        ensures
            r.code == -32600,
            r.message@ == message@,
    {
        JsonRpcError { code: -32600, message: message.to_owned() }
    }

    pub fn method_not_found(message: &str) -> (r: Self)
        ensures
            r.code == -32601,
            r.message@ == message@,
    {
        JsonRpcError { code: -32601, message: message.to_owned() }
    }

    pub fn invalid_params(message: &str) -> (r: Self)
        ensures
            r.code == -32602,
            r.message@ == message@,
    {
        JsonRpcError { code: -32602, message: message.to_owned() }
    }

    pub fn internal_error(message: &str) -> (r: Self)
        ensures
            r.code == -32603,
            r.message@ == message@,
    {
        JsonRpcError { code: -32603, message: message.to_owned() }
    }
}

// ---------------------------------------------------------------- tools

/// One property of a tool's input schema.
#[derive(Debug, Clone)]
pub struct SchemaProperty {
    pub name: String,
    /// The JSON type name ("string", "integer", "array", "object").
    pub json_type: String,
    pub description: Option<String>,
    /// The allowed values, when the property is an enumeration.
    pub enum_values: Vec<String>,
    /// The JSON type of the items, when the property is an array.
    pub items_type: Option<String>,
}

pub struct PropertyView {
    pub name: Seq<char>,
    pub json_type: Seq<char>,
    pub description: Option<Seq<char>>,
    pub enum_values: Seq<Seq<char>>,
    pub items_type: Option<Seq<char>>,
}

impl View for SchemaProperty {
    type V = PropertyView;

    open spec fn view(&self) -> PropertyView {
        PropertyView {
            name: self.name@,
            json_type: self.json_type@,
            description: opt_text(self.description),
            enum_values: strings_view(self.enum_values@),
            items_type: opt_text(self.items_type),
        }
    }
}

/// A tool's input schema: an object with the given properties, all of them required, and
/// no others.
#[derive(Debug, Clone)]
pub struct ToolSchema {
    pub properties: Vec<SchemaProperty>,
    pub required: Vec<String>,
}

/// One tool offered to MCP clients.
#[derive(Debug, Clone)]
pub struct Tool {
    pub name: String,
    pub description: String,
    pub input_schema: ToolSchema,
}

pub struct ToolView {
    pub name: Seq<char>,
    pub description: Seq<char>,
    pub properties: Seq<PropertyView>,
    pub required: Seq<Seq<char>>,
}

impl View for Tool {
    type V = ToolView;

    open spec fn view(&self) -> ToolView {
        ToolView {
            name: self.name@,
            description: self.description@,
            properties: self.input_schema.properties@.map_values(|p: SchemaProperty| p@),
            required: strings_view(self.input_schema.required@),
        }
    }
}

/// The result of `tools/list`.
#[derive(Debug, Clone)]
pub struct ListToolsResult {
    pub tools: Vec<Tool>,
}

pub open spec fn prop(name: Seq<char>, json_type: Seq<char>, description: Seq<char>, enum_values: Seq<Seq<char>>, items_type: Option<Seq<char>>) -> PropertyView {
    PropertyView { name, json_type, description: Some(description), enum_values, items_type }
}

/// The schema property that describes the argument `key`.
pub open spec fn property_spec(key: Seq<char>) -> PropertyView {
    if key == "query"@ {
        prop(key, "string"@, "Natural language query"@, Seq::<Seq<char>>::empty(), None)
    } else if key == "path"@ {
        prop(key, "string"@, "File or directory path"@, Seq::<Seq<char>>::empty(), None)
    } else if key == "file_path"@ {
        prop(key, "string"@, "Path to source file"@, Seq::<Seq<char>>::empty(), None)
    } else if key == "chunk_id"@ {
        prop(key, "integer"@, "Chunk identifier"@, Seq::<Seq<char>>::empty(), None)
    } else if key == "citation_index"@ {
        prop(key, "integer"@, "Citation number"@, Seq::<Seq<char>>::empty(), None)
    } else if key == "entity_id"@ {
        prop(key, "string"@, "Graph entity identifier"@, Seq::<Seq<char>>::empty(), None)
    } else if key == "limit"@ {
        prop(key, "integer"@, "Max results to return"@, Seq::<Seq<char>>::empty(), None)
    } else if key == "top_k"@ || key == "topK"@ {
        prop(key, "integer"@, "Number of top results"@, Seq::<Seq<char>>::empty(), None)
    } else if key == "lang"@ {
        prop(key, "string"@, "Language code (e.g. zh-CN, en-US)"@, Seq::<Seq<char>>::empty(), None)
    } else if key == "scope_paths"@ || key == "scopePaths"@ {
        prop(key, "array"@, "Limit search to these paths"@, Seq::<Seq<char>>::empty(), Some("string"@))
    } else if key == "chunk_ids"@ {
        prop(key, "array"@, "List of chunk identifiers"@, Seq::<Seq<char>>::empty(), Some("integer"@))
    } else if key == "model"@ {
        prop(key, "string"@, "Model name to pull"@, Seq::<Seq<char>>::empty(), None)
    } else if key == "provider"@ {
        prop(key, "string"@, "Model provider"@, seq!["llama_cpp_local"@, "openai_compatible"@], None)
    } else if key == "endpoint"@ {
        prop(key, "string"@, "Provider endpoint URL"@, Seq::<Seq<char>>::empty(), None)
    } else if key == "api_key"@ {
        prop(key, "string"@, "API key for remote provider"@, Seq::<Seq<char>>::empty(), None)
    } else if key == "indexing_mode"@ {
        prop(key, "string"@, "Indexing strategy"@, seq!["continuous"@, "manual"@, "scheduled"@], None)
    } else if key == "resource_budget"@ {
        prop(key, "string"@, "Resource usage level"@, seq!["low"@, "balanced"@, "fast"@], None)
    } else if key == "schedule_start"@ {
        prop(key, "string"@, "Schedule start time (HH:MM)"@, Seq::<Seq<char>>::empty(), None)
    } else if key == "schedule_end"@ {
        prop(key, "string"@, "Schedule end time (HH:MM)"@, Seq::<Seq<char>>::empty(), None)
    } else if key == "active_provider"@ {
        prop(key, "string"@, "Active provider"@, seq!["llama_cpp_local"@, "openai_compatible"@], None)
    } else if key == "local_profile"@ {
        prop(key, "object"@, "Local provider profile"@, Seq::<Seq<char>>::empty(), None)
    } else if key == "remote_profile"@ {
        prop(key, "object"@, "Remote provider profile"@, Seq::<Seq<char>>::empty(), None)
    } else if key == "candidates"@ {
        prop(key, "array"@, "Candidate tab names to rank"@, Seq::<Seq<char>>::empty(), Some("string"@))
    } else if key == "memory_id"@ {
        prop(key, "integer"@, "Memory identifier"@, Seq::<Seq<char>>::empty(), None)
    } else if key == "scope"@ {
        prop(key, "string"@, "Memory scope"@, seq!["user"@, "project"@, "session"@, "agent"@, "document"@], None)
    } else if key == "layer"@ {
        prop(key, "string"@, "Memory layer"@, seq!["stm"@, "mtm"@, "ltm"@, "graph"@, "policy"@], None)
    } else if key == "memory_type"@ {
        prop(key, "string"@, "Memory type such as note, summary, decision, task, risk, preference, fact"@, Seq::<Seq<char>>::empty(), None)
    } else if key == "content"@ {
        prop(key, "string"@, "Memory content"@, Seq::<Seq<char>>::empty(), None)
    } else if key == "source_ref"@ {
        prop(key, "string"@, "Required provenance reference"@, Seq::<Seq<char>>::empty(), None)
    } else {
        PropertyView { name: key, json_type: "string"@, description: None, enum_values: Seq::empty(), items_type: None }
    }
}

fn property(name: &str, json_type: &str, description: &str, enum_values: &[&str], items_type: Option<&str>) -> (r: SchemaProperty)
    ensures
        r@ == prop(name@, json_type@, description@, strs_view(enum_values@), match items_type { Some(t) => Some(t@), None => None }),
{
    SchemaProperty {
        name: name.to_owned(),
        json_type: json_type.to_owned(),
        description: Some(description.to_owned()),
        enum_values: to_strings(enum_values),
        items_type: match items_type {
            Some(t) => Some(t.to_owned()),
            None => None,
        },
    }
}

/// The schema property for the argument `key`.
pub fn schema_property(key: &str) -> (r: SchemaProperty)
    ensures
        r@ == property_spec(key@),
{
    if str_eq(key, "query") {
        let values: Vec<&str> = vec![];
        assert(strs_view(values@) =~= Seq::<Seq<char>>::empty());
        let r = property(key, "string", "Natural language query", &values, None);
        r
    } else if str_eq(key, "path") {
        let values: Vec<&str> = vec![];
        assert(strs_view(values@) =~= Seq::<Seq<char>>::empty());
        let r = property(key, "string", "File or directory path", &values, None);
        r
    } else if str_eq(key, "file_path") {
        let values: Vec<&str> = vec![];
        assert(strs_view(values@) =~= Seq::<Seq<char>>::empty());
        let r = property(key, "string", "Path to source file", &values, None);
        r
    } else if str_eq(key, "chunk_id") {
        let values: Vec<&str> = vec![];
        assert(strs_view(values@) =~= Seq::<Seq<char>>::empty());
        let r = property(key, "integer", "Chunk identifier", &values, None);
        r
    } else if str_eq(key, "citation_index") {
        let values: Vec<&str> = vec![];
        assert(strs_view(values@) =~= Seq::<Seq<char>>::empty());
        let r = property(key, "integer", "Citation number", &values, None);
        r
    } else if str_eq(key, "entity_id") {
        let values: Vec<&str> = vec![];
        assert(strs_view(values@) =~= Seq::<Seq<char>>::empty());
        let r = property(key, "string", "Graph entity identifier", &values, None);
        r
    } else if str_eq(key, "limit") {
        let values: Vec<&str> = vec![];
        assert(strs_view(values@) =~= Seq::<Seq<char>>::empty());
        let r = property(key, "integer", "Max results to return", &values, None);
        r
    } else if str_eq(key, "top_k") || str_eq(key, "topK") {
        let values: Vec<&str> = vec![];
        assert(strs_view(values@) =~= Seq::<Seq<char>>::empty());
        let r = property(key, "integer", "Number of top results", &values, None);
        r
    } else if str_eq(key, "lang") {
        let values: Vec<&str> = vec![];
        assert(strs_view(values@) =~= Seq::<Seq<char>>::empty());
        let r = property(key, "string", "Language code (e.g. zh-CN, en-US)", &values, None);
        r
    } else if str_eq(key, "scope_paths") || str_eq(key, "scopePaths") {
        let values: Vec<&str> = vec![];
        assert(strs_view(values@) =~= Seq::<Seq<char>>::empty());
        let r = property(key, "array", "Limit search to these paths", &values, Some("string"));
        r
    } else if str_eq(key, "chunk_ids") {
        let values: Vec<&str> = vec![];
        assert(strs_view(values@) =~= Seq::<Seq<char>>::empty());
        let r = property(key, "array", "List of chunk identifiers", &values, Some("integer"));
        r
    } else if str_eq(key, "model") {
        let values: Vec<&str> = vec![];
        assert(strs_view(values@) =~= Seq::<Seq<char>>::empty());
        let r = property(key, "string", "Model name to pull", &values, None);
        r
    } else if str_eq(key, "provider") {
        let values: Vec<&str> = vec!["llama_cpp_local", "openai_compatible"];
        assert(strs_view(values@) =~= seq!["llama_cpp_local"@, "openai_compatible"@]);
        let r = property(key, "string", "Model provider", &values, None);
        r
    } else if str_eq(key, "endpoint") {
        let values: Vec<&str> = vec![];
        assert(strs_view(values@) =~= Seq::<Seq<char>>::empty());
        let r = property(key, "string", "Provider endpoint URL", &values, None);
        r
    } else if str_eq(key, "api_key") {
        let values: Vec<&str> = vec![];
        assert(strs_view(values@) =~= Seq::<Seq<char>>::empty());
        let r = property(key, "string", "API key for remote provider", &values, None);
        r
    } else if str_eq(key, "indexing_mode") {
        let values: Vec<&str> = vec!["continuous", "manual", "scheduled"];
        assert(strs_view(values@) =~= seq!["continuous"@, "manual"@, "scheduled"@]);
        let r = property(key, "string", "Indexing strategy", &values, None);
        r
    } else if str_eq(key, "resource_budget") {
        let values: Vec<&str> = vec!["low", "balanced", "fast"];
        assert(strs_view(values@) =~= seq!["low"@, "balanced"@, "fast"@]);
        let r = property(key, "string", "Resource usage level", &values, None);
        r
    } else if str_eq(key, "schedule_start") {
        let values: Vec<&str> = vec![];
        assert(strs_view(values@) =~= Seq::<Seq<char>>::empty());
        let r = property(key, "string", "Schedule start time (HH:MM)", &values, None);
        r
    } else if str_eq(key, "schedule_end") {
        let values: Vec<&str> = vec![];
        assert(strs_view(values@) =~= Seq::<Seq<char>>::empty());
        let r = property(key, "string", "Schedule end time (HH:MM)", &values, None);
        r
    } else if str_eq(key, "active_provider") {
        let values: Vec<&str> = vec!["llama_cpp_local", "openai_compatible"];
        assert(strs_view(values@) =~= seq!["llama_cpp_local"@, "openai_compatible"@]);
        let r = property(key, "string", "Active provider", &values, None);
        r
    } else if str_eq(key, "local_profile") {
        let values: Vec<&str> = vec![];
        assert(strs_view(values@) =~= Seq::<Seq<char>>::empty());
        let r = property(key, "object", "Local provider profile", &values, None);
        r
    } else if str_eq(key, "remote_profile") {
        let values: Vec<&str> = vec![];
        assert(strs_view(values@) =~= Seq::<Seq<char>>::empty());
        let r = property(key, "object", "Remote provider profile", &values, None);
        r
    } else if str_eq(key, "candidates") {
        let values: Vec<&str> = vec![];
        assert(strs_view(values@) =~= Seq::<Seq<char>>::empty());
        let r = property(key, "array", "Candidate tab names to rank", &values, Some("string"));
        r
    } else if str_eq(key, "memory_id") {
        let values: Vec<&str> = vec![];
        assert(strs_view(values@) =~= Seq::<Seq<char>>::empty());
        let r = property(key, "integer", "Memory identifier", &values, None);
        r
    } else if str_eq(key, "scope") {
        let values: Vec<&str> = vec!["user", "project", "session", "agent", "document"];
        assert(strs_view(values@) =~= seq!["user"@, "project"@, "session"@, "agent"@, "document"@]);
        let r = property(key, "string", "Memory scope", &values, None);
        r
    } else if str_eq(key, "layer") {
        let values: Vec<&str> = vec!["stm", "mtm", "ltm", "graph", "policy"];
        assert(strs_view(values@) =~= seq!["stm"@, "mtm"@, "ltm"@, "graph"@, "policy"@]);
        let r = property(key, "string", "Memory layer", &values, None);
        r
    } else if str_eq(key, "memory_type") {
        let values: Vec<&str> = vec![];
        assert(strs_view(values@) =~= Seq::<Seq<char>>::empty());
        let r = property(key, "string", "Memory type such as note, summary, decision, task, risk, preference, fact", &values, None);
        r
    } else if str_eq(key, "content") {
        let values: Vec<&str> = vec![];
        assert(strs_view(values@) =~= Seq::<Seq<char>>::empty());
        let r = property(key, "string", "Memory content", &values, None);
        r
    } else if str_eq(key, "source_ref") {
        let values: Vec<&str> = vec![];
        assert(strs_view(values@) =~= Seq::<Seq<char>>::empty());
        let r = property(key, "string", "Required provenance reference", &values, None);
        r
    } else {
        let r = SchemaProperty {
            name: key.to_owned(),
            json_type: "string".to_owned(),
            description: None,
            enum_values: Vec::new(),
            items_type: None,
        };
        assert(strings_view(r.enum_values@) =~= Seq::<Seq<char>>::empty());
        r
    }
}

/// The input schema whose properties are `required`, all of them required.
pub fn schema(required: &[&str]) -> (r: ToolSchema)
    ensures
        r.properties@.map_values(|p: SchemaProperty| p@) == strs_view(required@).map_values(|k: Seq<char>| property_spec(k)),
        strings_view(r.required@) == strs_view(required@),
{
    let mut properties: Vec<SchemaProperty> = Vec::new();
    let mut k: usize = 0;
    while k < required.len()
        invariant
            k <= required.len(),
            properties.len() == k,
            forall|j: int| 0 <= j < k ==> #[trigger] properties@[j]@ == property_spec(required@[j]@),
        decreases required.len() - k,
    {
        properties.push(schema_property(required[k]));
        k += 1;
    }
    assert(properties@.map_values(|p: SchemaProperty| p@) =~= strs_view(required@).map_values(|k: Seq<char>| property_spec(k)));
    ToolSchema { properties, required: to_strings(required) }
}

pub open spec fn tool_spec(name: Seq<char>, description: Seq<char>, required: Seq<Seq<char>>) -> ToolView {
    ToolView { name, description, properties: required.map_values(|k: Seq<char>| property_spec(k)), required }
}

/// A tool entry.
pub fn tool(name: &str, description: &str, required: &[&str]) -> (r: Tool)
    ensures
        r@ == tool_spec(name@, description@, strs_view(required@)),
{
    Tool { name: name.to_owned(), description: description.to_owned(), input_schema: schema(required) }
}

/// The tools offered by the server, in the order listed.
pub open spec fn tool_catalog() -> Seq<ToolView> {
    seq![
        tool_spec("ask"@, "Ask Memori-Vault and return answer, citations, evidence, and retrieval metrics."@, seq!["query"@]),
        tool_spec("search"@, "Retrieve ranked source chunks without generating an answer."@, seq!["query"@]),
        tool_spec("get_source"@, "Read a source by file_path, chunk_id, or citation_index with a query."@, Seq::<Seq<char>>::empty()),
        tool_spec("open_source"@, "Open a local source file in the desktop environment."@, seq!["path"@]),
        tool_spec("get_vault_stats"@, "Return vault document/chunk/graph statistics."@, Seq::<Seq<char>>::empty()),
        tool_spec("get_indexing_status"@, "Return indexing phase, queue, and rebuild status."@, Seq::<Seq<char>>::empty()),
        tool_spec("trigger_reindex"@, "Trigger a full reindex task."@, Seq::<Seq<char>>::empty()),
        tool_spec("pause_indexing"@, "Pause background indexing."@, Seq::<Seq<char>>::empty()),
        tool_spec("resume_indexing"@, "Resume background indexing."@, Seq::<Seq<char>>::empty()),
        tool_spec("set_indexing_mode"@, "Set indexing mode/resource budget/schedule."@, seq!["indexing_mode"@, "resource_budget"@]),
        tool_spec("set_watch_root"@, "Change the vault watch root and reload the engine."@, seq!["path"@]),
        tool_spec("get_model_settings"@, "Return active local/remote model settings."@, Seq::<Seq<char>>::empty()),
        tool_spec("set_model_settings"@, "Replace model settings and hot-reload runtime."@, seq!["active_provider"@, "local_profile"@, "remote_profile"@]),
        tool_spec("validate_model_setup"@, "Validate active model configuration."@, Seq::<Seq<char>>::empty()),
        tool_spec("list_provider_models"@, "List model candidates from provider/folder."@, seq!["provider"@, "endpoint"@]),
        tool_spec("probe_model_provider"@, "Probe a model provider endpoint."@, seq!["provider"@, "endpoint"@]),
        tool_spec("pull_model"@, "Report that llama.cpp local runtime does not support model pulling."@, seq!["model"@, "provider"@, "endpoint"@]),
        tool_spec("get_graph_context"@, "Return graph context for a query or chunk ids."@, Seq::<Seq<char>>::empty()),
        tool_spec("get_graph_neighbors"@, "Return 1-hop graph neighbors and source chunks for an entity id."@, seq!["entity_id"@]),
        tool_spec("list_graph_entities"@, "Search graph entities by id/name/label/description."@, seq!["query"@]),
        tool_spec("get_app_settings"@, "Return app settings such as watch root and indexing config."@, Seq::<Seq<char>>::empty()),
        tool_spec("get_enterprise_policy"@, "Return enterprise egress/model policy."@, Seq::<Seq<char>>::empty()),
        tool_spec("get_runtime_baseline"@, "Return runtime retrieval baseline diagnostics."@, Seq::<Seq<char>>::empty()),
        tool_spec("rank_settings"@, "Rank settings tabs for a natural-language settings query."@, seq!["query"@, "candidates"@]),
        tool_spec("memory_search"@, "Search STM/MTM/LTM memories without mixing them into document citations."@, seq!["query"@]),
        tool_spec("memory_add"@, "Add an audited long-term memory note/fact with explicit scope and source_ref."@, seq!["scope"@, "memory_type"@, "content"@, "source_ref"@]),
        tool_spec("memory_update"@, "Update or supersede an existing memory and write lifecycle audit log."@, seq!["memory_id"@]),
        tool_spec("memory_list_recent"@, "List recent memories for a scope."@, Seq::<Seq<char>>::empty()),
        tool_spec("memory_get_source"@, "Read a memory and its lifecycle logs/source pointer."@, seq!["memory_id"@]),
    ]
}

/// The tools offered by the server.
pub fn list_tools() -> (r: ListToolsResult)
    ensures
        r.tools@.map_values(|t: Tool| t@) == tool_catalog(),
{
    let mut tools: Vec<Tool> = Vec::new();
    {
        let req: Vec<&str> = vec!["query"];
        assert(strs_view(req@) =~= seq!["query"@]);
        tools.push(tool("ask", "Ask Memori-Vault and return answer, citations, evidence, and retrieval metrics.", &req));
    }
    {
        let req: Vec<&str> = vec!["query"];
        assert(strs_view(req@) =~= seq!["query"@]);
        tools.push(tool("search", "Retrieve ranked source chunks without generating an answer.", &req));
    }
    {
        let req: Vec<&str> = vec![];
        assert(strs_view(req@) =~= Seq::<Seq<char>>::empty());
        tools.push(tool("get_source", "Read a source by file_path, chunk_id, or citation_index with a query.", &req));
    }
    {
        let req: Vec<&str> = vec!["path"];
        assert(strs_view(req@) =~= seq!["path"@]);
        tools.push(tool("open_source", "Open a local source file in the desktop environment.", &req));
    }
    {
        let req: Vec<&str> = vec![];
        assert(strs_view(req@) =~= Seq::<Seq<char>>::empty());
        tools.push(tool("get_vault_stats", "Return vault document/chunk/graph statistics.", &req));
    }
    {
        let req: Vec<&str> = vec![];
        assert(strs_view(req@) =~= Seq::<Seq<char>>::empty());
        tools.push(tool("get_indexing_status", "Return indexing phase, queue, and rebuild status.", &req));
    }
    {
        let req: Vec<&str> = vec![];
        assert(strs_view(req@) =~= Seq::<Seq<char>>::empty());
        tools.push(tool("trigger_reindex", "Trigger a full reindex task.", &req));
    }
    {
        let req: Vec<&str> = vec![];
        assert(strs_view(req@) =~= Seq::<Seq<char>>::empty());
        tools.push(tool("pause_indexing", "Pause background indexing.", &req));
    }
    {
        let req: Vec<&str> = vec![];
        assert(strs_view(req@) =~= Seq::<Seq<char>>::empty());
        tools.push(tool("resume_indexing", "Resume background indexing.", &req));
    }
    {
        let req: Vec<&str> = vec!["indexing_mode", "resource_budget"];
        assert(strs_view(req@) =~= seq!["indexing_mode"@, "resource_budget"@]);
        tools.push(tool("set_indexing_mode", "Set indexing mode/resource budget/schedule.", &req));
    }
    {
        let req: Vec<&str> = vec!["path"];
        assert(strs_view(req@) =~= seq!["path"@]);
        tools.push(tool("set_watch_root", "Change the vault watch root and reload the engine.", &req));
    }
    {
        let req: Vec<&str> = vec![];
        assert(strs_view(req@) =~= Seq::<Seq<char>>::empty());
        tools.push(tool("get_model_settings", "Return active local/remote model settings.", &req));
    }
    {
        let req: Vec<&str> = vec!["active_provider", "local_profile", "remote_profile"];
        assert(strs_view(req@) =~= seq!["active_provider"@, "local_profile"@, "remote_profile"@]);
        tools.push(tool("set_model_settings", "Replace model settings and hot-reload runtime.", &req));
    }
    {
        let req: Vec<&str> = vec![];
        assert(strs_view(req@) =~= Seq::<Seq<char>>::empty());
        tools.push(tool("validate_model_setup", "Validate active model configuration.", &req));
    }
    {
        let req: Vec<&str> = vec!["provider", "endpoint"];
        assert(strs_view(req@) =~= seq!["provider"@, "endpoint"@]);
        tools.push(tool("list_provider_models", "List model candidates from provider/folder.", &req));
    }
    {
        let req: Vec<&str> = vec!["provider", "endpoint"];
        assert(strs_view(req@) =~= seq!["provider"@, "endpoint"@]);
        tools.push(tool("probe_model_provider", "Probe a model provider endpoint.", &req));
    }
    {
        let req: Vec<&str> = vec!["model", "provider", "endpoint"];
        assert(strs_view(req@) =~= seq!["model"@, "provider"@, "endpoint"@]);
        tools.push(tool("pull_model", "Report that llama.cpp local runtime does not support model pulling.", &req));
    }
    {
        let req: Vec<&str> = vec![];
        assert(strs_view(req@) =~= Seq::<Seq<char>>::empty());
        tools.push(tool("get_graph_context", "Return graph context for a query or chunk ids.", &req));
    }
    {
        let req: Vec<&str> = vec!["entity_id"];
        assert(strs_view(req@) =~= seq!["entity_id"@]);
        tools.push(tool("get_graph_neighbors", "Return 1-hop graph neighbors and source chunks for an entity id.", &req));
    }
    {
        let req: Vec<&str> = vec!["query"];
        assert(strs_view(req@) =~= seq!["query"@]);
        tools.push(tool("list_graph_entities", "Search graph entities by id/name/label/description.", &req));
    }
    {
        let req: Vec<&str> = vec![];
        assert(strs_view(req@) =~= Seq::<Seq<char>>::empty());
        tools.push(tool("get_app_settings", "Return app settings such as watch root and indexing config.", &req));
    }
    {
        let req: Vec<&str> = vec![];
        assert(strs_view(req@) =~= Seq::<Seq<char>>::empty());
        tools.push(tool("get_enterprise_policy", "Return enterprise egress/model policy.", &req));
    }
    {
        let req: Vec<&str> = vec![];
        assert(strs_view(req@) =~= Seq::<Seq<char>>::empty());
        tools.push(tool("get_runtime_baseline", "Return runtime retrieval baseline diagnostics.", &req));
    }
    {
        let req: Vec<&str> = vec!["query", "candidates"];
        assert(strs_view(req@) =~= seq!["query"@, "candidates"@]);
        tools.push(tool("rank_settings", "Rank settings tabs for a natural-language settings query.", &req));
    }
    {
        let req: Vec<&str> = vec!["query"];
        assert(strs_view(req@) =~= seq!["query"@]);
        tools.push(tool("memory_search", "Search STM/MTM/LTM memories without mixing them into document citations.", &req));
    }
    {
        let req: Vec<&str> = vec!["scope", "memory_type", "content", "source_ref"];
        assert(strs_view(req@) =~= seq!["scope"@, "memory_type"@, "content"@, "source_ref"@]);
        tools.push(tool("memory_add", "Add an audited long-term memory note/fact with explicit scope and source_ref.", &req));
    }
    {
        let req: Vec<&str> = vec!["memory_id"];
        assert(strs_view(req@) =~= seq!["memory_id"@]);
        tools.push(tool("memory_update", "Update or supersede an existing memory and write lifecycle audit log.", &req));
    }
    {
        let req: Vec<&str> = vec![];
        assert(strs_view(req@) =~= Seq::<Seq<char>>::empty());
        tools.push(tool("memory_list_recent", "List recent memories for a scope.", &req));
    }
    {
        let req: Vec<&str> = vec!["memory_id"];
        assert(strs_view(req@) =~= seq!["memory_id"@]);
        tools.push(tool("memory_get_source", "Read a memory and its lifecycle logs/source pointer.", &req));
    }
    assert(tools@.map_values(|t: Tool| t@) =~= tool_catalog());
    ListToolsResult { tools }
}


// ---------------------------------------------------------------- resources

/// One resource offered to MCP clients.
#[derive(Debug, Clone)]
pub struct Resource {
    pub uri: String,
    pub name: String,
    pub description: Option<String>,
    pub mime_type: String,
}

/// A family of resources addressed by a URI template.
#[derive(Debug, Clone)]
pub struct ResourceTemplate {
    pub uri_template: String,
    pub name: String,
    pub description: Option<String>,
    pub mime_type: String,
}

/// URI (or URI template), name, description and MIME type of a resource entry.
pub type EntryView = (Seq<char>, Seq<char>, Option<Seq<char>>, Seq<char>);

impl View for Resource {
    type V = EntryView;

    open spec fn view(&self) -> EntryView {
        (self.uri@, self.name@, opt_text(self.description), self.mime_type@)
    }
}

impl View for ResourceTemplate {
    type V = EntryView;

    open spec fn view(&self) -> EntryView {
        (self.uri_template@, self.name@, opt_text(self.description), self.mime_type@)
    }
}

#[derive(Debug, Clone)]
pub struct ListResourcesResult {
    pub resources: Vec<Resource>,
}

#[derive(Debug, Clone)]
pub struct ListResourceTemplatesResult {
    pub resource_templates: Vec<ResourceTemplate>,
}

pub open spec fn json_entry(uri: Seq<char>, name: Seq<char>, description: Seq<char>) -> EntryView {
    (uri, name, Some(description), "application/json"@)
}

fn resource(uri: &str, name: &str, description: &str) -> (r: Resource)
    ensures
        r@ == json_entry(uri@, name@, description@),
{
    Resource { uri: uri.to_owned(), name: name.to_owned(), description: Some(description.to_owned()), mime_type: "application/json".to_owned() }
}

fn template(uri_template: &str, name: &str, description: &str) -> (r: ResourceTemplate)
    ensures
        r@ == json_entry(uri_template@, name@, description@),
{
    ResourceTemplate {
        uri_template: uri_template.to_owned(),
        name: name.to_owned(),
        description: Some(description.to_owned()),
        mime_type: "application/json".to_owned(),
    }
}

/// The fixed resources, in the order listed.
pub open spec fn resource_catalog() -> Seq<EntryView> {
    seq![
        json_entry("memori://vault/stats"@, "Vault stats"@, "Vault document/chunk/graph statistics"@),
        json_entry("memori://indexing/status"@, "Indexing status"@, "Current indexing and rebuild status"@),
        json_entry("memori://settings/app"@, "App settings"@, "Watch root and indexing settings"@),
        json_entry("memori://settings/models"@, "Model settings"@, "Local and remote model settings"@),
        json_entry("memori://policy/enterprise"@, "Enterprise policy"@, "Egress and model allowlist policy"@),
    ]
}

/// The resource templates, in the order listed.
pub open spec fn template_catalog() -> Seq<EntryView> {
    seq![
        json_entry("memori://source/{path}"@, "Source document"@, "Read source document chunks by path"@),
        json_entry("memori://chunk/{chunk_id}"@, "Source chunk"@, "Read indexed chunk by id"@),
        json_entry("memori://search/{query}"@, "Search results"@, "Run retrieval for a query"@),
        json_entry("memori://graph/entity/{entity_id}"@, "Graph entity"@, "Read graph entity neighbors"@),
        json_entry("memori://memory/{memory_id}"@, "Memory record"@, "Read a memory and its lifecycle logs by id"@),
        json_entry("memori://memory/recent/{scope}"@, "Recent memories"@, "List recent memories for a scope"@),
        json_entry("memori://memory/source/{source_ref}"@, "Memory source"@, "Read the memories recorded for a source reference"@),
        json_entry("memori://graph/entity/{entity_id}/timeline"@, "Entity timeline"@, "Read the timeline of a graph entity"@),
    ]
}

/// The fixed resources: vault statistics, indexing status, settings and policy.
pub fn list_resources() -> (r: ListResourcesResult)
    ensures
        r.resources@.map_values(|x: Resource| x@) == resource_catalog(),
{
    let mut resources: Vec<Resource> = Vec::new();
    resources.push(resource("memori://vault/stats", "Vault stats", "Vault document/chunk/graph statistics"));
    resources.push(resource("memori://indexing/status", "Indexing status", "Current indexing and rebuild status"));
    resources.push(resource("memori://settings/app", "App settings", "Watch root and indexing settings"));
    resources.push(resource("memori://settings/models", "Model settings", "Local and remote model settings"));
    resources.push(resource("memori://policy/enterprise", "Enterprise policy", "Egress and model allowlist policy"));
    assert(resources@.map_values(|x: Resource| x@) =~= resource_catalog());
    ListResourcesResult { resources }
}

/// The resource templates: sources, chunks, searches, graph entities and memories.
pub fn list_resource_templates() -> (r: ListResourceTemplatesResult)
    ensures
        r.resource_templates@.map_values(|x: ResourceTemplate| x@) == template_catalog(),
{
    let mut resource_templates: Vec<ResourceTemplate> = Vec::new();
    resource_templates.push(template("memori://source/{path}", "Source document", "Read source document chunks by path"));
    resource_templates.push(template("memori://chunk/{chunk_id}", "Source chunk", "Read indexed chunk by id"));
    resource_templates.push(template("memori://search/{query}", "Search results", "Run retrieval for a query"));
    resource_templates.push(template("memori://graph/entity/{entity_id}", "Graph entity", "Read graph entity neighbors"));
    resource_templates.push(template("memori://memory/{memory_id}", "Memory record", "Read a memory and its lifecycle logs by id"));
    resource_templates.push(template("memori://memory/recent/{scope}", "Recent memories", "List recent memories for a scope"));
    resource_templates.push(template("memori://memory/source/{source_ref}", "Memory source", "Read the memories recorded for a source reference"));
    resource_templates.push(template("memori://graph/entity/{entity_id}/timeline", "Entity timeline", "Read the timeline of a graph entity"));
    assert(resource_templates@.map_values(|x: ResourceTemplate| x@) =~= template_catalog());
    ListResourceTemplatesResult { resource_templates }
}

// ---------------------------------------------------------------- prompts

/// An argument that a prompt accepts.
#[derive(Debug, Clone)]
pub struct PromptArgument {
    pub name: String,
    pub description: Option<String>,
    pub required: bool,
}

/// One prompt offered to MCP clients.
#[derive(Debug, Clone)]
pub struct Prompt {
    pub name: String,
    pub description: Option<String>,
    pub arguments: Option<Vec<PromptArgument>>,
}

/// Name and description of a prompt, and whether it carries the single optional
/// "arguments" argument.
pub type PromptView = (Seq<char>, Option<Seq<char>>, bool);

impl View for Prompt {
    type V = PromptView;

    open spec fn view(&self) -> PromptView {
        (
            self.name@,
            opt_text(self.description),
            match self.arguments {
                Some(args) => args.len() == 1 && args[0].name@ == "arguments"@
                    && opt_text(args[0].description) == Some("Optional JSON arguments for the prompt workflow"@)
                    && !args[0].required,
                None => false,
            },
        )
    }
}

#[derive(Debug, Clone)]
pub struct ListPromptsResult {
    pub prompts: Vec<Prompt>,
}

fn prompt(name: &str, description: &str) -> (r: Prompt)
    ensures
        r@ == (name@, Some(description@), true),
{
    let arg = PromptArgument {
        name: "arguments".to_owned(),
        description: Some("Optional JSON arguments for the prompt workflow".to_owned()),
        required: false,
    };
    Prompt { name: name.to_owned(), description: Some(description.to_owned()), arguments: Some(vec![arg]) }
}

/// The prompts, in the order listed.
pub open spec fn prompt_catalog() -> Seq<PromptView> {
    seq![
        ("ask_with_citations"@, Some("Ask using Memori-Vault evidence and cite sources"@), true),
        ("summarize_sources"@, Some("Summarize selected sources with evidence"@), true),
        ("investigate_project_memory"@, Some("Search, inspect sources, then answer"@), true),
        ("graph_explore"@, Some("Explore graph entities as evidence only"@), true),
        ("diagnose_retrieval"@, Some("Diagnose retrieval/ranking/gating issues"@), true),
    ]
}

/// The prompts offered by the server.
pub fn list_prompts() -> (r: ListPromptsResult)
    ensures
        r.prompts@.map_values(|x: Prompt| x@) == prompt_catalog(),
{
    let mut prompts: Vec<Prompt> = Vec::new();
    prompts.push(prompt("ask_with_citations", "Ask using Memori-Vault evidence and cite sources"));
    prompts.push(prompt("summarize_sources", "Summarize selected sources with evidence"));
    prompts.push(prompt("investigate_project_memory", "Search, inspect sources, then answer"));
    prompts.push(prompt("graph_explore", "Explore graph entities as evidence only"));
    prompts.push(prompt("diagnose_retrieval", "Diagnose retrieval/ranking/gating issues"));
    assert(prompts@.map_values(|x: Prompt| x@) =~= prompt_catalog());
    ListPromptsResult { prompts }
}

/// The instruction text of the prompt `name`.
pub open spec fn prompt_text_spec(name: Seq<char>) -> Option<Seq<char>> {
    if name == "ask_with_citations"@ {
        Some("Use Memori-Vault ask/search first. Answer only from returned evidence. Include citations with file paths and chunk indexes. If evidence is insufficient, say so clearly."@)
    } else if name == "summarize_sources"@ {
        Some("Read the requested memori://source or memori://chunk resources. Summarize only facts present in those sources and group claims by source."@)
    } else if name == "investigate_project_memory"@ {
        Some("Workflow: call search, inspect the top sources with get_source, optionally inspect graph context, then provide a grounded answer with citations."@)
    } else if name == "graph_explore"@ {
        Some("Use list_graph_entities and get_graph_neighbors to explain relationships. Treat graph data as an evidence exploration layer and do not override text citations."@)
    } else if name == "diagnose_retrieval"@ {
        Some("Run search and inspect metrics/evidence. Identify whether failures are recall, ranking, gating, or answer generation issues. Suggest concrete regression cases."@)
    } else {
        None
    }
}

/// The instruction text of the prompt `name`, if there is such a prompt.
pub fn prompt_text(name: &str) -> (r: Option<String>)
    ensures
        opt_text(r) == prompt_text_spec(name@),
{
    if str_eq(name, "ask_with_citations") {
        Some("Use Memori-Vault ask/search first. Answer only from returned evidence. Include citations with file paths and chunk indexes. If evidence is insufficient, say so clearly.".to_owned())
    } else if str_eq(name, "summarize_sources") {
        Some("Read the requested memori://source or memori://chunk resources. Summarize only facts present in those sources and group claims by source.".to_owned())
    } else if str_eq(name, "investigate_project_memory") {
        Some("Workflow: call search, inspect the top sources with get_source, optionally inspect graph context, then provide a grounded answer with citations.".to_owned())
    } else if str_eq(name, "graph_explore") {
        Some("Use list_graph_entities and get_graph_neighbors to explain relationships. Treat graph data as an evidence exploration layer and do not override text citations.".to_owned())
    } else if str_eq(name, "diagnose_retrieval") {
        Some("Run search and inspect metrics/evidence. Identify whether failures are recall, ranking, gating, or answer generation issues. Suggest concrete regression cases.".to_owned())
    } else {
        None
    }
}

/// One message of a prompt.
#[derive(Debug, Clone)]
pub struct PromptMessage {
    pub role: String,
    pub text: String,
}

/// The result of `prompts/get`.
#[derive(Debug, Clone)]
pub struct GetPromptResult {
    pub description: String,
    pub messages: Vec<PromptMessage>,
}

/// The prompt `name` rendered for a client: its text as the description, and one user
/// message with the text followed by the client's arguments (`arguments`, as JSON text).
/// An unknown name is an invalid-params error.
pub fn get_prompt(name: &str, arguments: &str) -> (r: Result<GetPromptResult, JsonRpcError>)
    ensures
        match prompt_text_spec(name@) {
            Some(text) => r matches Ok(res) && res.description@ == text && res.messages.len() == 1
                && res.messages[0].role@ == "user"@
                && res.messages[0].text@ == text + "\n\nArguments: "@ + arguments@,
            None => r matches Err(e) && e.code == -32602 && e.message@ == "unknown prompt: "@ + name@,
        },
{
    match prompt_text(name) {
        Some(text) => {
            let mut body = text.clone();
            body.append("\n\nArguments: ");
            body.append(arguments);
            let message = PromptMessage { role: "user".to_owned(), text: body };
            Ok(GetPromptResult { description: text, messages: vec![message] })
        },
        None => {
            let mut message = "unknown prompt: ".to_owned();
            message.append(name);
            Err(JsonRpcError { code: -32602, message })
        },
    }
}


// ---------------------------------------------------------------- request routing

/// What the server does with a JSON-RPC request.
#[derive(Debug)]
pub enum McpRoute {
    /// Answer with this error.
    Reject(JsonRpcError),
    /// Send no response (a notification).
    Silent,
    /// Answer with an empty result.
    Pong,
    Initialize,
    ListTools,
    CallTool,
    ListResources,
    ListResourceTemplates,
    ReadResource,
    ListPrompts,
    GetPrompt,
}

/// The spec of a route: its kind by name, and the error it answers with.
pub open spec fn route_of(jsonrpc: Seq<char>, method: Seq<char>, is_notification: bool) -> (Seq<char>, Option<(i64, Seq<char>)>) {
    if jsonrpc != "2.0"@ {
        ("reject"@, Some((-32600i64, "jsonrpc must be 2.0"@)))
    } else if method == "initialize"@ {
        ("initialize"@, None)
    } else if method == "notifications/initialized"@ {
        ("silent"@, None)
    } else if method == "ping"@ {
        if is_notification { ("silent"@, None) } else { ("pong"@, None) }
    } else if method == "tools/list"@ {
        ("tools/list"@, None)
    } else if method == "tools/call"@ {
        ("tools/call"@, None)
    } else if method == "resources/list"@ {
        ("resources/list"@, None)
    } else if method == "resources/templates/list"@ {
        ("resources/templates/list"@, None)
    } else if method == "resources/read"@ {
        ("resources/read"@, None)
    } else if method == "prompts/list"@ {
        ("prompts/list"@, None)
    } else if method == "prompts/get"@ {
        ("prompts/get"@, None)
    } else if is_notification {
        ("silent"@, None)
    } else {
        ("reject"@, Some((-32601i64, "unsupported MCP method: "@ + method)))
    }
}

pub open spec fn route_view(r: McpRoute) -> (Seq<char>, Option<(i64, Seq<char>)>) {
    match r {
        McpRoute::Reject(e) => ("reject"@, Some((e.code, e.message@))),
        McpRoute::Silent => ("silent"@, None),
        McpRoute::Pong => ("pong"@, None),
        McpRoute::Initialize => ("initialize"@, None),
        McpRoute::ListTools => ("tools/list"@, None),
        McpRoute::CallTool => ("tools/call"@, None),
        McpRoute::ListResources => ("resources/list"@, None),
        McpRoute::ListResourceTemplates => ("resources/templates/list"@, None),
        McpRoute::ReadResource => ("resources/read"@, None),
        McpRoute::ListPrompts => ("prompts/list"@, None),
        McpRoute::GetPrompt => ("prompts/get"@, None),
    }
}

/// Routes a JSON-RPC request by its version tag and method; a request without an id is a
/// notification, which gets no answer for pings and unknown methods.
pub fn route_request(jsonrpc: &str, method: &str, is_notification: bool) -> (r: McpRoute)
    ensures
        route_view(r) == route_of(jsonrpc@, method@, is_notification),
{
    proof {
        reveal_strlit("reject");
        reveal_strlit("silent");
        reveal_strlit("pong");
        reveal_strlit("initialize");
        reveal_strlit("tools/list");
        reveal_strlit("tools/call");
        reveal_strlit("resources/list");
        reveal_strlit("resources/templates/list");
        reveal_strlit("resources/read");
        reveal_strlit("prompts/list");
        reveal_strlit("prompts/get");
    }
    if !str_eq(jsonrpc, "2.0") {
        return McpRoute::Reject(JsonRpcError::invalid_request("jsonrpc must be 2.0"));
    }
    if str_eq(method, "initialize") {
        McpRoute::Initialize
    } else if str_eq(method, "notifications/initialized") {
        McpRoute::Silent
    } else if str_eq(method, "ping") {
        if is_notification { McpRoute::Silent } else { McpRoute::Pong }
    } else if str_eq(method, "tools/list") {
        McpRoute::ListTools
    } else if str_eq(method, "tools/call") {
        McpRoute::CallTool
    } else if str_eq(method, "resources/list") {
        McpRoute::ListResources
    } else if str_eq(method, "resources/templates/list") {
        McpRoute::ListResourceTemplates
    } else if str_eq(method, "resources/read") {
        McpRoute::ReadResource
    } else if str_eq(method, "prompts/list") {
        McpRoute::ListPrompts
    } else if str_eq(method, "prompts/get") {
        McpRoute::GetPrompt
    } else if is_notification {
        McpRoute::Silent
    } else {
        let mut message = "unsupported MCP method: ".to_owned();
        message.append(method);
        McpRoute::Reject(JsonRpcError::method_not_found(message.as_str()))
    }
}

// ---------------------------------------------------------------- schema as JSON

/// The member names of an object, in order; none for any other value.
pub open spec fn keys_of(j: Json) -> Seq<Seq<char>> {
    match j {
        Json::Object(ms) => ms@.map_values(|m: (String, Json)| m.0@),
        _ => Seq::empty(),
    }
}

/// `j` is an array of the strings `ts`, in order.
pub open spec fn str_array(j: Json, ts: Seq<Seq<char>>) -> bool {
    j matches Json::Array(items) && items@.len() == ts.len() && forall|i: int|
        0 <= i < ts.len() ==> #[trigger] text_of(Some(items@[i])) == Some(ts[i])
}

/// The members a property's JSON has: its type, then the type of its items, its allowed
/// values and its description where it has them.
pub open spec fn property_keys(p: PropertyView) -> Seq<Seq<char>> {
    seq!["type"@] + (if p.items_type is Some { seq!["items"@] } else { Seq::empty() }) + (if p.enum_values.len() > 0 {
        seq!["enum"@]
    } else {
        Seq::empty()
    }) + (if p.description is Some { seq!["description"@] } else { Seq::empty() })
}

/// `j` is the JSON Schema of the property `p`.
pub open spec fn property_json(j: Json, p: PropertyView) -> bool {
    &&& j is Object
    &&& keys_of(j) == property_keys(p)
    &&& text_of(field(j, "type"@)) == Some(p.json_type)
    &&& (p.items_type matches Some(t) ==> (field(j, "items"@) matches Some(it) && keys_of(it) == seq!["type"@]
        && text_of(field(it, "type"@)) == Some(t)))
    &&& (p.enum_values.len() > 0 ==> (field(j, "enum"@) matches Some(e) && str_array(e, p.enum_values)))
    &&& (p.description matches Some(d) ==> text_of(field(j, "description"@)) == Some(d))
}

/// `j` is the JSON Schema of a tool's input: an object whose properties are `props`, all
/// of `required` required, and no other property allowed.
pub open spec fn schema_json_spec(j: Json, props: Seq<PropertyView>, required: Seq<Seq<char>>) -> bool {
    &&& keys_of(j) == seq!["type"@, "properties"@, "required"@, "additionalProperties"@]
    &&& text_of(field(j, "type"@)) == Some("object"@)
    &&& field(j, "additionalProperties"@) == Some(Json::Bool(false))
    &&& (field(j, "required"@) matches Some(rq) && str_array(rq, required))
    &&& (field(j, "properties"@) matches Some(ps) && ps is Object && keys_of(ps) == props.map_values(
        |p: PropertyView| p.name,
    ) && forall|i: int| 0 <= i < props.len() ==> #[trigger] property_json(ps->Object_0@[i].1, props[i]))
}

/// The member found for `key` is the first one that carries it.
proof fn lemma_member_at(ms: Seq<(String, Json)>, key: Seq<char>, e: int)
    requires
        0 <= e < ms.len(),
        ms[e].0@ == key,
        forall|j: int| 0 <= j < e ==> #[trigger] ms[j].0@ != key,
    ensures
        member(ms, key) == Some(ms[e].1),
    decreases e,
{
    if e > 0 {
        assert(ms[0].0@ != key);
        let rest = ms.drop_first();
        assert forall|j: int| 0 <= j < e - 1 implies #[trigger] rest[j].0@ != key by {
            assert(rest[j] == ms[j + 1]);
        }
        lemma_member_at(rest, key, e - 1);
    }
}

fn str_json(s: &String) -> (r: Json)
    ensures
        text_of(Some(r)) == Some(s@),
{
    Json::Str(s.clone())
}

fn str_array_json(ts: &Vec<String>) -> (r: Json)
    ensures
        str_array(r, strings_view(ts@)),
{
    let mut items: Vec<Json> = Vec::new();
    let mut k: usize = 0;
    while k < ts.len()
        invariant
            k <= ts.len(),
            items.len() == k,
            forall|i: int| 0 <= i < k ==> #[trigger] text_of(Some(items@[i])) == Some(ts@[i]@),
        decreases ts.len() - k,
    {
        items.push(str_json(&ts[k]));
        k += 1;
    }
    Json::Array(items)
}

fn member_pair(key: &str, value: Json) -> (r: (String, Json))
    ensures
        r.0@ == key@,
        r.1 == value,
{
    (key.to_owned(), value)
}

/// The JSON Schema of one property.
pub fn property_json_exec(p: &SchemaProperty) -> (r: Json)
    ensures
        property_json(r, p@),
{
    let mut ms: Vec<(String, Json)> = Vec::new();
    ms.push(member_pair("type", str_json(&p.json_type)));
    let ghost m0 = ms@;
    match &p.items_type {
        Some(t) => {
            let mut inner: Vec<(String, Json)> = Vec::new();
            inner.push(member_pair("type", str_json(t)));
            proof {
                reveal_strlit("type");
                assert(inner@.map_values(|m: (String, Json)| m.0@) =~= seq!["type"@]);
            }
            ms.push(member_pair("items", Json::Object(inner)));
        },
        None => {},
    }
    let ghost m1 = ms@;
    if p.enum_values.len() > 0 {
        ms.push(member_pair("enum", str_array_json(&p.enum_values)));
    }
    let ghost m2 = ms@;
    match &p.description {
        Some(d) => ms.push(member_pair("description", str_json(d))),
        None => {},
    }
    proof {
        reveal_strlit("type");
        reveal_strlit("items");
        reveal_strlit("enum");
        reveal_strlit("description");
        let keys = ms@.map_values(|m: (String, Json)| m.0@);
        assert(keys =~= property_keys(p@));
        assert(forall|j: int| 0 <= j < keys.len() ==> #[trigger] keys[j] == ms@[j].0@);
        assert(forall|j: int| 0 <= j < keys.len() ==> #[trigger] keys[j].len() == 4 || keys[j].len() == 5 || keys[j].len() == 11);
        assert(keys[0].len() == 4);
        lemma_member_at(ms@, "type"@, 0);
        if p.items_type is Some {
            assert(keys[1].len() == 5 && keys[1][0] == 'i');
            lemma_member_at(ms@, "items"@, 1);
        }
        if p.enum_values.len() > 0 {
            let e: int = if p.items_type is Some { 2 } else { 1 };
            assert(keys[e] == "enum"@);
            assert(keys[0][0] == 't' && "enum"@[0] == 'e');
            assert(forall|j: int| 0 <= j < e ==> #[trigger] keys[j] != "enum"@);
            lemma_member_at(ms@, "enum"@, e);
        }
        if p.description is Some {
            let e: int = ms@.len() - 1;
            assert(keys[e] == "description"@);
            assert(forall|j: int| 0 <= j < e ==> #[trigger] keys[j] != "description"@);
            lemma_member_at(ms@, "description"@, e);
        }
    }
    Json::Object(ms)
}

/// The JSON Schema of a tool's input, as `tools/list` shows it: `{"type": "object",
/// "properties": {..}, "required": [..], "additionalProperties": false}`.
pub fn schema_json(schema: &ToolSchema) -> (r: Json)
    ensures
        schema_json_spec(r, schema.properties@.map_values(|p: SchemaProperty| p@), strings_view(schema.required@)),
{
    let ghost props = schema.properties@.map_values(|p: SchemaProperty| p@);
    let mut pms: Vec<(String, Json)> = Vec::new();
    let mut k: usize = 0;
    while k < schema.properties.len()
        invariant
            k <= schema.properties.len(),
            props == schema.properties@.map_values(|p: SchemaProperty| p@),
            pms.len() == k,
            forall|i: int| 0 <= i < k ==> #[trigger] pms@[i].0@ == props[i].name && property_json(pms@[i].1, props[i]),
        decreases schema.properties.len() - k,
    {
        let p = &schema.properties[k];
        pms.push((p.name.clone(), property_json_exec(p)));
        k += 1;
    }
    let ghost pms_view = pms@;
    let properties = Json::Object(pms);
    proof {
        assert(keys_of(properties) =~= props.map_values(|p: PropertyView| p.name));
    }
    let mut ms: Vec<(String, Json)> = Vec::new();
    ms.push(member_pair("type", Json::Str("object".to_owned())));
    ms.push(member_pair("properties", properties));
    ms.push(member_pair("required", str_array_json(&schema.required)));
    ms.push(member_pair("additionalProperties", Json::Bool(false)));
    proof {
        reveal_strlit("type");
        reveal_strlit("object");
        reveal_strlit("properties");
        reveal_strlit("required");
        reveal_strlit("additionalProperties");
        assert(ms@.map_values(|m: (String, Json)| m.0@) =~= seq!["type"@, "properties"@, "required"@, "additionalProperties"@]);
        assert(ms@[0].0@.len() == 4 && ms@[1].0@.len() == 10 && ms@[2].0@.len() == 8);
        lemma_member_at(ms@, "type"@, 0);
        lemma_member_at(ms@, "properties"@, 1);
        lemma_member_at(ms@, "required"@, 2);
        lemma_member_at(ms@, "additionalProperties"@, 3);
        let r = Json::Object(ms);
        assert(keys_of(r) == seq!["type"@, "properties"@, "required"@, "additionalProperties"@]);
        assert(text_of(field(r, "type"@)) == Some("object"@));
        assert(field(r, "additionalProperties"@) == Some(Json::Bool(false)));
        assert(field(r, "required"@) matches Some(rq) && str_array(rq, strings_view(schema.required@)));
        assert(field(r, "properties"@) == Some(properties));
        assert(keys_of(properties) == props.map_values(|p: PropertyView| p.name));
        assert forall|i: int| 0 <= i < props.len() implies #[trigger] property_json(properties->Object_0@[i].1, props[i]) by {
            assert(properties->Object_0@[i] == pms_view[i]);
            assert(pms_view[i].0@ == props[i].name);
        }
    }
    Json::Object(ms)
}

/// A prompt can be fetched by `prompts/get` exactly when `prompts/list` lists its name; any
/// other name is answered with the invalid-params error.
pub proof fn law_listed_prompts_are_gettable(name: Seq<char>)
    ensures
        prompt_text_spec(name) is Some <==> exists|i: int| 0 <= i < prompt_catalog().len() && #[trigger] prompt_catalog()[i].0 == name,
{
    let c = prompt_catalog();
    assert(c[0].0 == "ask_with_citations"@);
    assert(c[1].0 == "summarize_sources"@);
    assert(c[2].0 == "investigate_project_memory"@);
    assert(c[3].0 == "graph_explore"@);
    assert(c[4].0 == "diagnose_retrieval"@);
    if prompt_text_spec(name) is Some {
        if name == "ask_with_citations"@ {
            assert(c[0].0 == name);
        } else if name == "summarize_sources"@ {
            assert(c[1].0 == name);
        } else if name == "investigate_project_memory"@ {
            assert(c[2].0 == name);
        } else if name == "graph_explore"@ {
            assert(c[3].0 == name);
        } else {
            assert(c[4].0 == name);
        }
    }
}


/// A tool's schema has one property per argument it requires, named by it, in the same
/// order: its properties are exactly its required arguments.
pub proof fn law_tool_properties_are_required(name: Seq<char>, description: Seq<char>, required: Seq<Seq<char>>)
    ensures
        tool_spec(name, description, required).properties.map_values(|p: PropertyView| p.name) == required,
{
    let names = tool_spec(name, description, required).properties.map_values(|p: PropertyView| p.name);
    assert forall|i: int| 0 <= i < required.len() implies names[i] == required[i] by {
        assert(property_spec(required[i]).name == required[i]);
    }
    assert(names =~= required);
}

} // verus!
