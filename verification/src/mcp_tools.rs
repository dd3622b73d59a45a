//! The tools of the MCP server by name: which tool a `tools/call` request names, and the
//! error for a name that is no tool.
use crate::mcp::{tool_catalog, JsonRpcError};
use crate::text::{append_chars, from_chars, str_eq, to_chars};
use vstd::prelude::*;

verus! {

/// The tools a client can call.
#[derive(Debug, Clone, Copy, PartialEq, Eq, Structural)]
pub enum McpTool {
    Ask,
    Search,
    GetSource,
    OpenSource,
    GetVaultStats,
    GetIndexingStatus,
    TriggerReindex,
    PauseIndexing,
    ResumeIndexing,
    SetIndexingMode,
    SetWatchRoot,
    GetModelSettings,
    SetModelSettings,
    ValidateModelSetup,
    ListProviderModels,
    ProbeModelProvider,
    PullModel,
    GetGraphContext,
    GetGraphNeighbors,
    ListGraphEntities,
    GetAppSettings,
    GetEnterprisePolicy,
    GetRuntimeBaseline,
    RankSettings,
    MemorySearch,
    MemoryAdd,
    MemoryUpdate,
    MemoryListRecent,
    MemoryGetSource,
}

/// The name under which a tool is called.
pub open spec fn tool_name(t: McpTool) -> Seq<char> {
    match t {
        McpTool::Ask => "ask"@,
        McpTool::Search => "search"@,
        McpTool::GetSource => "get_source"@,
        McpTool::OpenSource => "open_source"@,
        McpTool::GetVaultStats => "get_vault_stats"@,
        McpTool::GetIndexingStatus => "get_indexing_status"@,
        McpTool::TriggerReindex => "trigger_reindex"@,
        McpTool::PauseIndexing => "pause_indexing"@,
        McpTool::ResumeIndexing => "resume_indexing"@,
        McpTool::SetIndexingMode => "set_indexing_mode"@,
        McpTool::SetWatchRoot => "set_watch_root"@,
        McpTool::GetModelSettings => "get_model_settings"@,
        McpTool::SetModelSettings => "set_model_settings"@,
        McpTool::ValidateModelSetup => "validate_model_setup"@,
        McpTool::ListProviderModels => "list_provider_models"@,
        McpTool::ProbeModelProvider => "probe_model_provider"@,
        McpTool::PullModel => "pull_model"@,
        McpTool::GetGraphContext => "get_graph_context"@,
        McpTool::GetGraphNeighbors => "get_graph_neighbors"@,
        McpTool::ListGraphEntities => "list_graph_entities"@,
        McpTool::GetAppSettings => "get_app_settings"@,
        McpTool::GetEnterprisePolicy => "get_enterprise_policy"@,
        McpTool::GetRuntimeBaseline => "get_runtime_baseline"@,
        McpTool::RankSettings => "rank_settings"@,
        McpTool::MemorySearch => "memory_search"@,
        McpTool::MemoryAdd => "memory_add"@,
        McpTool::MemoryUpdate => "memory_update"@,
        McpTool::MemoryListRecent => "memory_list_recent"@,
        McpTool::MemoryGetSource => "memory_get_source"@,
    }
}

/// The tool a `tools/call` request names, if any.
pub fn tool_of(name: &str) -> (r: Option<McpTool>)
    ensures
        match r {
            Some(t) => tool_name(t) == name@,
            None => forall|t: McpTool| tool_name(t) != name@,
        },
{
    if str_eq(name, "ask") {
        return Some(McpTool::Ask);
    }
    if str_eq(name, "search") {
        return Some(McpTool::Search);
    }
    if str_eq(name, "get_source") {
        return Some(McpTool::GetSource);
    }
    if str_eq(name, "open_source") {
        return Some(McpTool::OpenSource);
    }
    if str_eq(name, "get_vault_stats") {
        return Some(McpTool::GetVaultStats);
    }
    if str_eq(name, "get_indexing_status") {
        return Some(McpTool::GetIndexingStatus);
    }
    if str_eq(name, "trigger_reindex") {
        return Some(McpTool::TriggerReindex);
    }
    if str_eq(name, "pause_indexing") {
        return Some(McpTool::PauseIndexing);
    }
    if str_eq(name, "resume_indexing") {
        return Some(McpTool::ResumeIndexing);
    }
    if str_eq(name, "set_indexing_mode") {
        return Some(McpTool::SetIndexingMode);
    }
    if str_eq(name, "set_watch_root") {
        return Some(McpTool::SetWatchRoot);
    }
    if str_eq(name, "get_model_settings") {
        return Some(McpTool::GetModelSettings);
    }
    if str_eq(name, "set_model_settings") {
        return Some(McpTool::SetModelSettings);
    }
    if str_eq(name, "validate_model_setup") {
        return Some(McpTool::ValidateModelSetup);
    }
    if str_eq(name, "list_provider_models") {
        return Some(McpTool::ListProviderModels);
    }
    if str_eq(name, "probe_model_provider") {
        return Some(McpTool::ProbeModelProvider);
    }
    if str_eq(name, "pull_model") {
        return Some(McpTool::PullModel);
    }
    if str_eq(name, "get_graph_context") {
        return Some(McpTool::GetGraphContext);
    }
    if str_eq(name, "get_graph_neighbors") {
        return Some(McpTool::GetGraphNeighbors);
    }
    if str_eq(name, "list_graph_entities") {
        return Some(McpTool::ListGraphEntities);
    }
    if str_eq(name, "get_app_settings") {
        return Some(McpTool::GetAppSettings);
    }
    if str_eq(name, "get_enterprise_policy") {
        return Some(McpTool::GetEnterprisePolicy);
    }
    if str_eq(name, "get_runtime_baseline") {
        return Some(McpTool::GetRuntimeBaseline);
    }
    if str_eq(name, "rank_settings") {
        return Some(McpTool::RankSettings);
    }
    if str_eq(name, "memory_search") {
        return Some(McpTool::MemorySearch);
    }
    if str_eq(name, "memory_add") {
        return Some(McpTool::MemoryAdd);
    }
    if str_eq(name, "memory_update") {
        return Some(McpTool::MemoryUpdate);
    }
    if str_eq(name, "memory_list_recent") {
        return Some(McpTool::MemoryListRecent);
    }
    if str_eq(name, "memory_get_source") {
        return Some(McpTool::MemoryGetSource);
    }
    None
}

/// The error for a `tools/call` request that names no tool.
pub fn unknown_tool_error(name: &str) -> (r: JsonRpcError)
    ensures
        r.code == -32601,
        r.message@ == "unknown tool: "@ + name@,
{
    let mut text = to_chars("unknown tool: ");
    append_chars(&mut text, &to_chars(name));
    let message = from_chars(&text);
    JsonRpcError::method_not_found(message.as_str())
}

/// Every tool that `tools/list` offers can be called by its name.
pub proof fn law_listed_tools_are_callable()
    ensures
        forall|i: int| 0 <= i < tool_catalog().len() ==> exists|t: McpTool| tool_name(t) == #[trigger] tool_catalog()[i].name,
{
    assert forall|i: int| 0 <= i < tool_catalog().len() implies exists|t: McpTool| tool_name(t) == #[trigger] tool_catalog()[i].name by {
        if i == 0 {
            assert(tool_name(McpTool::Ask) == tool_catalog()[i].name);
        } else if i == 1 {
            assert(tool_name(McpTool::Search) == tool_catalog()[i].name);
        } else if i == 2 {
            assert(tool_name(McpTool::GetSource) == tool_catalog()[i].name);
        } else if i == 3 {
            assert(tool_name(McpTool::OpenSource) == tool_catalog()[i].name);
        } else if i == 4 {
            assert(tool_name(McpTool::GetVaultStats) == tool_catalog()[i].name);
        } else if i == 5 {
            assert(tool_name(McpTool::GetIndexingStatus) == tool_catalog()[i].name);
        } else if i == 6 {
            assert(tool_name(McpTool::TriggerReindex) == tool_catalog()[i].name);
        } else if i == 7 {
            assert(tool_name(McpTool::PauseIndexing) == tool_catalog()[i].name);
        } else if i == 8 {
            assert(tool_name(McpTool::ResumeIndexing) == tool_catalog()[i].name);
        } else if i == 9 {
            assert(tool_name(McpTool::SetIndexingMode) == tool_catalog()[i].name);
        } else if i == 10 {
            assert(tool_name(McpTool::SetWatchRoot) == tool_catalog()[i].name);
        } else if i == 11 {
            assert(tool_name(McpTool::GetModelSettings) == tool_catalog()[i].name);
        } else if i == 12 {
            assert(tool_name(McpTool::SetModelSettings) == tool_catalog()[i].name);
        } else if i == 13 {
            assert(tool_name(McpTool::ValidateModelSetup) == tool_catalog()[i].name);
        } else if i == 14 {
            assert(tool_name(McpTool::ListProviderModels) == tool_catalog()[i].name);
        } else if i == 15 {
            assert(tool_name(McpTool::ProbeModelProvider) == tool_catalog()[i].name);
        } else if i == 16 {
            assert(tool_name(McpTool::PullModel) == tool_catalog()[i].name);
        } else if i == 17 {
            assert(tool_name(McpTool::GetGraphContext) == tool_catalog()[i].name);
        } else if i == 18 {
            assert(tool_name(McpTool::GetGraphNeighbors) == tool_catalog()[i].name);
        } else if i == 19 {
            assert(tool_name(McpTool::ListGraphEntities) == tool_catalog()[i].name);
        } else if i == 20 {
            assert(tool_name(McpTool::GetAppSettings) == tool_catalog()[i].name);
        } else if i == 21 {
            assert(tool_name(McpTool::GetEnterprisePolicy) == tool_catalog()[i].name);
        } else if i == 22 {
            assert(tool_name(McpTool::GetRuntimeBaseline) == tool_catalog()[i].name);
        } else if i == 23 {
            assert(tool_name(McpTool::RankSettings) == tool_catalog()[i].name);
        } else if i == 24 {
            assert(tool_name(McpTool::MemorySearch) == tool_catalog()[i].name);
        } else if i == 25 {
            assert(tool_name(McpTool::MemoryAdd) == tool_catalog()[i].name);
        } else if i == 26 {
            assert(tool_name(McpTool::MemoryUpdate) == tool_catalog()[i].name);
        } else if i == 27 {
            assert(tool_name(McpTool::MemoryListRecent) == tool_catalog()[i].name);
        } else if i == 28 {
            assert(tool_name(McpTool::MemoryGetSource) == tool_catalog()[i].name);
        }
    }
}

} // verus!
