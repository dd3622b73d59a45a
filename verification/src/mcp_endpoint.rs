//! Settings of the MCP endpoint as the desktop application stores them, and the status it
//! reports.
use crate::text::{
    append_chars, decimal, decimal_chars, from_chars, lower, str_eq, strings_view, to_chars, trim,
    trim_chars, trim_lower, trim_str,
};
use crate::text::opt_str_text;
use vstd::prelude::*;

verus! {

/// Protocol version the MCP endpoint announces.
pub const MCP_PROTOCOL_VERSION: &'static str = "2025-11-25";

/// Number of tools the desktop reports for the MCP endpoint.
pub const MCP_TOOL_COUNT: usize = 25;

/// Number of resources the desktop reports for the MCP endpoint.
pub const MCP_RESOURCE_COUNT: usize = 5;

/// Number of prompts the desktop reports for the MCP endpoint.
pub const MCP_PROMPT_COUNT: usize = 5;

/// Port used when none is configured.
pub const DEFAULT_MCP_HTTP_PORT: u16 = 3757;

/// The MCP settings as stored, each of them possibly missing.
pub struct StoredMcpSettings {
    pub mcp_enabled: Option<bool>,
    pub mcp_transports: Option<Vec<String>>,
    pub mcp_http_bind: Option<String>,
    pub mcp_http_port: Option<u16>,
    pub mcp_access_mode: Option<String>,
    pub mcp_audit_enabled: Option<bool>,
}

/// The settings of the MCP endpoint.
pub struct McpEndpointSettings {
    pub enabled: bool,
    /// Transports in use: "http" and/or "stdio".
    pub transports: Vec<String>,
    pub http_bind: String,
    pub http_port: u16,
    /// "read_only" or "full_control".
    pub access_mode: String,
    pub audit_enabled: bool,
}

pub struct McpEndpointView {
    pub enabled: bool,
    pub transports: Seq<Seq<char>>,
    pub http_bind: Seq<char>,
    pub http_port: u16,
    pub access_mode: Seq<char>,
    pub audit_enabled: bool,
}

impl View for McpEndpointSettings {
    type V = McpEndpointView;

    open spec fn view(&self) -> McpEndpointView {
        McpEndpointView {
            enabled: self.enabled,
            transports: strings_view(self.transports@),
            http_bind: self.http_bind@,
            http_port: self.http_port,
            access_mode: self.access_mode@,
            audit_enabled: self.audit_enabled,
        }
    }
}

/// Whether some transport of `ts`, trimmed and lower-cased, is `name`.
pub open spec fn lists_transport(ts: Seq<Seq<char>>, name: Seq<char>) -> bool {
    exists|i: int| 0 <= i < ts.len() && lower(trim(ts[i])) == name
}

/// The transports kept from a request: the known ones ("http", "stdio"), normalised, sorted
/// and without repeats; both, stdio first, when none is known.
pub open spec fn normalize_transports(ts: Seq<Seq<char>>) -> Seq<Seq<char>> {
    let http = lists_transport(ts, "http"@);
    let stdio = lists_transport(ts, "stdio"@);
    if !http && !stdio {
        seq!["stdio"@, "http"@]
    } else if http && stdio {
        seq!["http"@, "stdio"@]
    } else if http {
        seq!["http"@]
    } else {
        seq!["stdio"@]
    }
}

/// The normalised form of MCP settings.
pub open spec fn normalize_mcp_settings_spec(p: McpEndpointView) -> McpEndpointView {
    McpEndpointView {
        enabled: p.enabled,
        transports: normalize_transports(p.transports),
        http_bind: if trim(p.http_bind).len() == 0 { "127.0.0.1"@ } else { trim(p.http_bind) },
        http_port: if p.http_port == 0 { 3757 } else { p.http_port },
        access_mode: if trim(p.access_mode) == "read_only"@ { "read_only"@ } else { "full_control"@ },
        audit_enabled: p.audit_enabled,
    }
}

fn has_transport(ts: &Vec<String>, name: &str) -> (r: bool)
    ensures
        r == lists_transport(strings_view(ts@), name@),
{
    let target = to_chars(name);
    let mut k: usize = 0;
    while k < ts.len()
        invariant
            k <= ts.len(),
            target@ == name@,
            forall|j: int| 0 <= j < k ==> lower(trim(#[trigger] strings_view(ts@)[j])) != name@,
        decreases ts.len() - k,
    {
        let t = trim_lower(ts[k].as_str());
        if crate::text::chars_eq(&t, &target) {
            assert(lower(trim(strings_view(ts@)[k as int])) == name@);
            return true;
        }
        k += 1;
    }
    false
}

/// Normalises MCP settings: known transports only, a bind address and a port always set,
/// and an access mode that is either "read_only" or "full_control".
pub fn normalize_mcp_settings(payload: McpEndpointSettings) -> (r: McpEndpointSettings)
    ensures
        r@ == normalize_mcp_settings_spec(payload@),
{
    let http = has_transport(&payload.transports, "http");
    let stdio = has_transport(&payload.transports, "stdio");
    let mut transports: Vec<String> = Vec::new();
    if !http && !stdio {
        transports.push("stdio".to_owned());
        transports.push("http".to_owned());
    } else {
        if http {
            transports.push("http".to_owned());
        }
        if stdio {
            transports.push("stdio".to_owned());
        }
    }
    assert(strings_view(transports@) =~= normalize_transports(strings_view(payload.transports@)));
    let bind = trim_str(payload.http_bind.as_str());
    let http_bind = if bind.as_str().is_empty() { "127.0.0.1".to_owned() } else { bind };
    let http_port = if payload.http_port == 0 { DEFAULT_MCP_HTTP_PORT } else { payload.http_port };
    let mode = trim_str(payload.access_mode.as_str());
    let access_mode = if str_eq(mode.as_str(), "read_only") { "read_only".to_owned() } else { "full_control".to_owned() };
    McpEndpointSettings {
        enabled: payload.enabled,
        transports,
        http_bind,
        http_port,
        access_mode,
        audit_enabled: payload.audit_enabled,
    }
}

/// The stored settings with defaults filled in, normalised.
pub fn resolve_mcp_settings(settings: &StoredMcpSettings) -> (r: McpEndpointSettings)
    ensures
        r@ == normalize_mcp_settings_spec(McpEndpointView {
            enabled: match settings.mcp_enabled { Some(b) => b, None => false },
            transports: match settings.mcp_transports {
                Some(ts) => strings_view(ts@),
                None => seq!["stdio"@, "http"@],
            },
            http_bind: match settings.mcp_http_bind { Some(b) => b@, None => "127.0.0.1"@ },
            http_port: match settings.mcp_http_port { Some(p) => p, None => 3757 },
            access_mode: match settings.mcp_access_mode { Some(m) => m@, None => "full_control"@ },
            audit_enabled: match settings.mcp_audit_enabled { Some(b) => b, None => true },
        }),
{
    let transports = match &settings.mcp_transports {
        Some(ts) => copy_strings(ts),
        None => {
            let mut v: Vec<String> = Vec::new();
            v.push("stdio".to_owned());
            v.push("http".to_owned());
            assert(strings_view(v@) =~= seq!["stdio"@, "http"@]);
            v
        },
    };
    let payload = McpEndpointSettings {
        enabled: match settings.mcp_enabled { Some(b) => b, None => false },
        transports,
        http_bind: match &settings.mcp_http_bind { Some(b) => b.clone(), None => "127.0.0.1".to_owned() },
        http_port: match settings.mcp_http_port { Some(p) => p, None => DEFAULT_MCP_HTTP_PORT },
        access_mode: match &settings.mcp_access_mode { Some(m) => m.clone(), None => "full_control".to_owned() },
        audit_enabled: match settings.mcp_audit_enabled { Some(b) => b, None => true },
    };
    normalize_mcp_settings(payload)
}

fn copy_strings(v: &Vec<String>) -> (r: Vec<String>)
    ensures
        strings_view(r@) == strings_view(v@),
{
    let mut r: Vec<String> = Vec::new();
    let mut k: usize = 0;
    while k < v.len()
        invariant
            k <= v.len(),
            r.len() == k,
            forall|j: int| 0 <= j < k ==> r@[j]@ == v@[j]@,
        decreases v.len() - k,
    {
        r.push(v[k].clone());
        k += 1;
    }
    assert(strings_view(r@) =~= strings_view(v@));
    r
}

/// The status of the MCP endpoint.
pub struct McpStatusDto {
    pub enabled: bool,
    pub protocol_version: String,
    pub http_endpoint: String,
    pub stdio_command: String,
    pub tools_count: usize,
    pub resources_count: usize,
    pub prompts_count: usize,
}

/// The URL of the HTTP endpoint: `http://{bind}:{port}/mcp`.
pub open spec fn http_endpoint_url(bind: Seq<char>, port: u16) -> Seq<char> {
    "http://"@ + bind + ":"@ + decimal(port as nat) + "/mcp"@
}

/// The status that the settings give.
pub fn build_mcp_status(settings: &McpEndpointSettings) -> (r: McpStatusDto)
    ensures
        r.enabled == settings.enabled,
        r.protocol_version@ == MCP_PROTOCOL_VERSION@,
        r.http_endpoint@ == http_endpoint_url(settings.http_bind@, settings.http_port),
        r.stdio_command@ == "memori-server --mcp-stdio"@,
        r.tools_count == MCP_TOOL_COUNT,
        r.resources_count == MCP_RESOURCE_COUNT,
        r.prompts_count == MCP_PROMPT_COUNT,
{
    let mut url = to_chars("http://");
    append_chars(&mut url, &to_chars(settings.http_bind.as_str()));
    append_chars(&mut url, &to_chars(":"));
    append_chars(&mut url, &decimal_chars(settings.http_port as u64));
    append_chars(&mut url, &to_chars("/mcp"));
    McpStatusDto {
        enabled: settings.enabled,
        protocol_version: MCP_PROTOCOL_VERSION.to_owned(),
        http_endpoint: from_chars(&url),
        stdio_command: "memori-server --mcp-stdio".to_owned(),
        tools_count: MCP_TOOL_COUNT,
        resources_count: MCP_RESOURCE_COUNT,
        prompts_count: MCP_PROMPT_COUNT,
    }
}

/// What an MCP client is told to connect to.
pub enum McpClientConfig {
    /// Connect over HTTP to this URL.
    Http { url: String },
    /// Start this command with these arguments and speak over its standard streams.
    Stdio { command: String, args: Vec<String> },
}

/// Whether the client name asks for the HTTP transport: `"http"` after trimming, in any case.
pub open spec fn wants_http(client: Seq<char>) -> bool {
    lower(trim(client)) == "http"@
}

/// The connection a client is given for `client`: the HTTP endpoint of `status` where the
/// name asks for HTTP, else the stdio command `memori-server --mcp-stdio`.
pub fn mcp_client_config(client: &str, status: &McpStatusDto) -> (r: McpClientConfig)
    ensures
        wants_http(client@) ==> (r matches McpClientConfig::Http { url } && url@ == status.http_endpoint@),
        !wants_http(client@) ==> (r matches McpClientConfig::Stdio { command, args } && command@
            == "memori-server"@ && args@.len() == 1 && args@[0]@ == "--mcp-stdio"@),
{
    let name = trim_lower(client);
    let http = to_chars("http");
    proof {
        reveal_strlit("http");
    }
    if crate::text::chars_eq(&name, &http) {
        McpClientConfig::Http { url: status.http_endpoint.clone() }
    } else {
        let mut args: Vec<String> = Vec::new();
        args.push("--mcp-stdio".to_owned());
        McpClientConfig::Stdio { command: "memori-server".to_owned(), args }
    }
}

/// The older protocol version the server still speaks when a client asks for it.
pub const MCP_COMPAT_PROTOCOL_VERSION: &'static str = "2024-11-05";

/// The name the server gives itself.
pub const MCP_SERVER_NAME: &'static str = "memori-vault";

#[derive(Debug, Clone, Copy, PartialEq, Eq, Structural)]
pub struct ToolsCapability {
    pub list_changed: bool,
}

#[derive(Debug, Clone, Copy, PartialEq, Eq, Structural)]
pub struct ResourcesCapability {
    pub subscribe: bool,
    pub list_changed: bool,
}

#[derive(Debug, Clone, Copy, PartialEq, Eq, Structural)]
pub struct PromptsCapability {
    pub list_changed: bool,
}

/// What the server offers: tools, resources and prompts, none of them announcing changes and
/// resources not open to subscription.
#[derive(Debug, Clone, Copy, PartialEq, Eq, Structural)]
pub struct ServerCapabilities {
    pub tools: Option<ToolsCapability>,
    pub resources: Option<ResourcesCapability>,
    pub prompts: Option<PromptsCapability>,
}

/// The answer to `initialize`.
pub struct InitializeResult {
    pub protocol_version: String,
    pub capabilities: ServerCapabilities,
    pub server_name: String,
    pub server_version: String,
}

/// The protocol version answered to a client that asks for `requested` (none when it names
/// none): the older version when that is what it asks for, else the current one.
pub open spec fn answered_version(requested: Option<Seq<char>>) -> Seq<char> {
    if requested == Some(MCP_COMPAT_PROTOCOL_VERSION@) {
        MCP_COMPAT_PROTOCOL_VERSION@
    } else {
        MCP_PROTOCOL_VERSION@
    }
}

/// The answer to `initialize` from a server of version `server_version`, for a client that
/// asks for the protocol version `requested`.
pub fn initialize_result(requested: Option<&str>, server_version: &str) -> (r: InitializeResult)
    ensures
        r.protocol_version@ == answered_version(opt_str_text(requested)),
        r.capabilities == (ServerCapabilities {
            tools: Some(ToolsCapability { list_changed: false }),
            resources: Some(ResourcesCapability { subscribe: false, list_changed: false }),
            prompts: Some(PromptsCapability { list_changed: false }),
        }),
        r.server_name@ == MCP_SERVER_NAME@,
        r.server_version@ == server_version@,
{
    let compat = match requested {
        Some(v) => str_eq(v, MCP_COMPAT_PROTOCOL_VERSION),
        None => false,
    };
    let version = if compat { MCP_COMPAT_PROTOCOL_VERSION } else { MCP_PROTOCOL_VERSION };
    InitializeResult {
        protocol_version: version.to_owned(),
        capabilities: ServerCapabilities {
            tools: Some(ToolsCapability { list_changed: false }),
            resources: Some(ResourcesCapability { subscribe: false, list_changed: false }),
            prompts: Some(PromptsCapability { list_changed: false }),
        },
        server_name: MCP_SERVER_NAME.to_owned(),
        server_version: server_version.to_owned(),
    }
}

} // verus!
