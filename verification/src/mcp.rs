//! The tool server spoken over standard input and output (JSON-RPC 2.0,
//! one message per line): which methods it answers, which tools it offers
//! and how a tool name is dispatched.
//!
//! Reading and writing JSON is left to the caller; it hands over the method
//! and tool names and the request lines.

use vstd::prelude::*;
use crate::text::{chars_of, eq_str, opt_view, push_str, string_of, trim, trim_vec};

verus! {

/// The protocol version announced on `initialize`.
pub const PROTOCOL_VERSION: &'static str = "2024-11-05";

/// The server name announced on `initialize`.
pub const SERVER_NAME: &'static str = "hyperhost";

/// The version announced on `initialize` and by the command line.
pub const SERVER_VERSION: &'static str = "0.4.1";

/// The JSON-RPC error code of an unknown method.
pub const METHOD_NOT_FOUND: i32 = -32601;

/// The JSON-RPC error code of invalid parameters.
pub const INVALID_PARAMS: i32 = -32602;

/// The JSON-RPC error code of a request that is not JSON.
pub const PARSE_ERROR: i32 = -32700;

/// What the server does with a request method.
#[derive(Debug, Clone, Copy, PartialEq, Eq, Structural)]
pub enum McpMethod {
    /// Answers with the protocol version, server name and capabilities.
    Initialize,
    /// A notification that needs no answer.
    Initialized,
    /// Answers with an empty object.
    Ping,
    /// Answers with the tool definitions.
    ToolsList,
    /// Runs a tool.
    ToolsCall,
    /// Answers with a method-not-found error.
    Unknown,
}

/// The handling of a request method.
pub open spec fn method_of(m: Seq<char>) -> McpMethod {
    if m == "initialize"@ {
        McpMethod::Initialize
    } else if m == "initialized"@ || m == "notifications/initialized"@ {
        McpMethod::Initialized
    } else if m == "ping"@ {
        McpMethod::Ping
    } else if m == "tools/list"@ {
        McpMethod::ToolsList
    } else if m == "tools/call"@ {
        McpMethod::ToolsCall
    } else {
        McpMethod::Unknown
    }
}

/// How the server handles a request method.
pub fn classify_method(method: &str) -> (r: McpMethod)
    ensures
        r == method_of(method@),
{
    let m = chars_of(method);
    if eq_str(&m, "initialize") {
        McpMethod::Initialize
    } else if eq_str(&m, "initialized") || eq_str(&m, "notifications/initialized") {
        McpMethod::Initialized
    } else if eq_str(&m, "ping") {
        McpMethod::Ping
    } else if eq_str(&m, "tools/list") {
        McpMethod::ToolsList
    } else if eq_str(&m, "tools/call") {
        McpMethod::ToolsCall
    } else {
        McpMethod::Unknown
    }
}

/// Whether a request gets an answer: notifications (no `id`) never do, nor
/// does the `initialized` notification.
pub fn needs_reply(has_id: bool, method: McpMethod) -> (r: bool)
    ensures
        r == (has_id && method != McpMethod::Initialized),
{
    has_id && !matches!(method, McpMethod::Initialized)
}

/// The error answered for an unknown method.
pub fn method_not_found(method: &str) -> (r: (i32, String))
    ensures
        r.0 == METHOD_NOT_FOUND,
        r.1@ == "method not found: "@ + method@,
{
    let mut v = chars_of("method not found: ");
    push_str(&mut v, method);
    (METHOD_NOT_FOUND, string_of(&v))
}

/// The error answered for a `tools/call` without a tool name.
pub fn missing_tool_name() -> (r: (i32, &'static str))
    ensures
        r == (INVALID_PARAMS, "missing `name`"),
{
    (INVALID_PARAMS, "missing `name`")
}

/// The request text of an input line: the line trimmed, none when blank.
pub fn request_text(line: &str) -> (r: Option<String>)
    ensures
        match r {
            Some(t) => trim(line@).len() > 0 && t@ == trim(line@),
            None => trim(line@).len() == 0,
        },
{
    let t = trim_vec(&chars_of(line));
    if t.len() == 0 {
        None
    } else {
        Some(string_of(&t))
    }
}

/// What `serde_json` reads from a request text: the JSON of its `id` and
/// of its `params` when present, and its `method` when that is a string;
/// or the parse error's message when the text is no JSON.
pub uninterp spec fn request_json_fields(text: Seq<char>) -> Result<
    (Option<Seq<char>>, Option<Seq<char>>, Option<Seq<char>>),
    Seq<char>,
>;

/// `serde_json::from_str::<Value>` on a request, read as the compact JSON
/// of `id` and `params` and the string `method`. Trusted: the result
/// depends on the text alone (named `request_json_fields`).
#[verifier::external_body]
fn request_json(text: &str) -> (r: Result<(Option<String>, Option<String>, Option<String>), String>)
    ensures
        match r {
            Ok((id, m, p)) => request_json_fields(text@) == Ok::<
                (Option<Seq<char>>, Option<Seq<char>>, Option<Seq<char>>),
                Seq<char>,
            >((opt_view(id), opt_view(m), opt_view(p))),
            Err(e) => request_json_fields(text@) == Err::<
                (Option<Seq<char>>, Option<Seq<char>>, Option<Seq<char>>),
                Seq<char>,
            >(e@),
        },
{
    let v: serde_json::Value = serde_json::from_str(text).map_err(|e| e.to_string())?;
    let json = |k: &str| v.get(k).map(|x| x.to_string());
    Ok((json("id"), v.get("method").and_then(|m| m.as_str()).map(|m| m.to_string()), json("params")))
}

/// A request of the tool server: whether it has an id and that id's JSON,
/// its method (empty when missing) and the JSON of its params (`null`
/// when missing).
#[derive(Debug, Clone)]
pub struct McpRequest {
    pub has_id: bool,
    pub id_json: Option<String>,
    pub method: String,
    pub params_json: String,
}

/// The request a text holds, or the parse error answered for it.
pub open spec fn parsed_request(text: Seq<char>) -> Result<
    (bool, Option<Seq<char>>, Seq<char>, Seq<char>),
    Seq<char>,
> {
    match request_json_fields(text) {
        Ok((id, m, p)) => Ok(
            (
                id is Some,
                id,
                match m {
                    Some(m) => m,
                    None => Seq::empty(),
                },
                match p {
                    Some(p) => p,
                    None => "null"@,
                },
            ),
        ),
        Err(e) => Err("parse error: "@ + e),
    }
}

/// Reads a request of the tool server.
pub fn parse_request(text: &str) -> (r: Result<McpRequest, String>)
    ensures
        match r {
            Ok(q) => parsed_request(text@) == Ok::<
                (bool, Option<Seq<char>>, Seq<char>, Seq<char>),
                Seq<char>,
            >((q.has_id, opt_view(q.id_json), q.method@, q.params_json@)),
            Err(e) => parsed_request(text@) == Err::<
                (bool, Option<Seq<char>>, Seq<char>, Seq<char>),
                Seq<char>,
            >(e@),
        },
{
    match request_json(text) {
        Ok((id, m, p)) => {
            let has_id = id.is_some();
            let method = match m {
                Some(m) => m,
                None => String::new(),
            };
            let params_json = match p {
                Some(p) => p,
                None => "null".to_string(),
            };
            proof {
                reveal_strlit("null");
            }
            Ok(McpRequest { has_id, id_json: id, method, params_json })
        },
        Err(e) => {
            let mut out = chars_of("parse error: ");
            push_str(&mut out, e.as_str());
            Err(string_of(&out))
        },
    }
}

/// A tool the server offers.
#[derive(Debug, Clone, Copy, PartialEq, Eq, Structural)]
pub enum McpTool {
    ListDomains,
    AddDomain,
    RemoveDomain,
    ToggleDomain,
    ToggleCors,
    NginxStatus,
    NginxStart,
    NginxStop,
    NginxReload,
    ScanPorts,
    ScanProjects,
    Doctor,
    DockerCheck,
    ComposeStatus,
    ComposeUp,
    ComposeDown,
    ComposeRestart,
    ComposeLogs,
    ComposeSaveFile,
    ListNamedTunnels,
    AddNamedTunnel,
    OpenDomain,
}

/// The tool a name calls, if any.
pub open spec fn tool_of(name: Seq<char>) -> Option<McpTool> {
    if name == "list_domains"@ {
        Some(McpTool::ListDomains)
    } else if name == "add_domain"@ {
        Some(McpTool::AddDomain)
    } else if name == "remove_domain"@ {
        Some(McpTool::RemoveDomain)
    } else if name == "toggle_domain"@ {
        Some(McpTool::ToggleDomain)
    } else if name == "toggle_cors"@ {
        Some(McpTool::ToggleCors)
    } else if name == "nginx_status"@ {
        Some(McpTool::NginxStatus)
    } else if name == "nginx_start"@ {
        Some(McpTool::NginxStart)
    } else if name == "nginx_stop"@ {
        Some(McpTool::NginxStop)
    } else if name == "nginx_reload"@ {
        Some(McpTool::NginxReload)
    } else if name == "scan_ports"@ {
        Some(McpTool::ScanPorts)
    } else if name == "scan_projects"@ {
        Some(McpTool::ScanProjects)
    } else if name == "doctor"@ {
        Some(McpTool::Doctor)
    } else if name == "docker_check"@ {
        Some(McpTool::DockerCheck)
    } else if name == "compose_status"@ {
        Some(McpTool::ComposeStatus)
    } else if name == "compose_up"@ {
        Some(McpTool::ComposeUp)
    } else if name == "compose_down"@ {
        Some(McpTool::ComposeDown)
    } else if name == "compose_restart"@ {
        Some(McpTool::ComposeRestart)
    } else if name == "compose_logs"@ {
        Some(McpTool::ComposeLogs)
    } else if name == "compose_save_file"@ {
        Some(McpTool::ComposeSaveFile)
    } else if name == "list_named_tunnels"@ {
        Some(McpTool::ListNamedTunnels)
    } else if name == "add_named_tunnel"@ {
        Some(McpTool::AddNamedTunnel)
    } else if name == "open_domain"@ {
        Some(McpTool::OpenDomain)
    } else {
        None
    }
}

/// The tool a name calls, if any.
pub fn tool_named(name: &str) -> (r: Option<McpTool>)
    ensures
        r == tool_of(name@),
{
    let n = chars_of(name);
    if eq_str(&n, "list_domains") {
        Some(McpTool::ListDomains)
    } else if eq_str(&n, "add_domain") {
        Some(McpTool::AddDomain)
    } else if eq_str(&n, "remove_domain") {
        Some(McpTool::RemoveDomain)
    } else if eq_str(&n, "toggle_domain") {
        Some(McpTool::ToggleDomain)
    } else if eq_str(&n, "toggle_cors") {
        Some(McpTool::ToggleCors)
    } else if eq_str(&n, "nginx_status") {
        Some(McpTool::NginxStatus)
    } else if eq_str(&n, "nginx_start") {
        Some(McpTool::NginxStart)
    } else if eq_str(&n, "nginx_stop") {
        Some(McpTool::NginxStop)
    } else if eq_str(&n, "nginx_reload") {
        Some(McpTool::NginxReload)
    } else if eq_str(&n, "scan_ports") {
        Some(McpTool::ScanPorts)
    } else if eq_str(&n, "scan_projects") {
        Some(McpTool::ScanProjects)
    } else if eq_str(&n, "doctor") {
        Some(McpTool::Doctor)
    } else if eq_str(&n, "docker_check") {
        Some(McpTool::DockerCheck)
    } else if eq_str(&n, "compose_status") {
        Some(McpTool::ComposeStatus)
    } else if eq_str(&n, "compose_up") {
        Some(McpTool::ComposeUp)
    } else if eq_str(&n, "compose_down") {
        Some(McpTool::ComposeDown)
    } else if eq_str(&n, "compose_restart") {
        Some(McpTool::ComposeRestart)
    } else if eq_str(&n, "compose_logs") {
        Some(McpTool::ComposeLogs)
    } else if eq_str(&n, "compose_save_file") {
        Some(McpTool::ComposeSaveFile)
    } else if eq_str(&n, "list_named_tunnels") {
        Some(McpTool::ListNamedTunnels)
    } else if eq_str(&n, "add_named_tunnel") {
        Some(McpTool::AddNamedTunnel)
    } else if eq_str(&n, "open_domain") {
        Some(McpTool::OpenDomain)
    } else {
        None
    }
}

/// The error of a call of an unknown tool.
pub fn unknown_tool_error(name: &str) -> (r: String)
    ensures
        r@ == "unknown tool: "@ + name@,
{
    let mut v = chars_of("unknown tool: ");
    push_str(&mut v, name);
    string_of(&v)
}

/// The error of a tool call without a required argument.
pub fn missing_argument_error(key: &str) -> (r: String)
    ensures
        r@ == "missing argument: "@ + key@,
{
    let mut v = chars_of("missing argument: ");
    push_str(&mut v, key);
    string_of(&v)
}

/// An argument of a tool: its name, its JSON type, what it means, and
/// whether the call must give it.
#[derive(Debug, Clone, Copy)]
pub struct ToolParam {
    pub name: &'static str,
    pub kind: &'static str,
    pub description: Option<&'static str>,
    pub required: bool,
}

/// A tool as `tools/list` describes it.
#[derive(Debug, Clone)]
pub struct ToolDef {
    pub name: &'static str,
    pub description: &'static str,
    pub params: Vec<ToolParam>,
}

/// The tools offered, in the order they are listed.
pub open spec fn tool_table() -> Seq<(&'static str, &'static str, Seq<ToolParam>)> {
    seq![
        ("list_domains", "List all configured local HTTPS domains.", Seq::empty()),
        ("add_domain", "Register a new local HTTPS domain. Domain must end with .test or .local.", seq![
                ToolParam { name: "domain", kind: "string", description: Some("e.g. myapp.test"), required: true },
                ToolParam { name: "upstream", kind: "string", description: Some("e.g. http://127.0.0.1:3000"), required: true },
            ]),
        ("remove_domain", "Delete a local domain and its cert.", seq![
                ToolParam { name: "domain", kind: "string", description: None, required: true },
            ]),
        ("toggle_domain", "Enable or disable a domain.", seq![
                ToolParam { name: "domain", kind: "string", description: None, required: true },
            ]),
        ("toggle_cors", "Toggle permissive CORS headers for a domain.", seq![
                ToolParam { name: "domain", kind: "string", description: None, required: true },
            ]),
        ("nginx_status", "Check whether the local nginx proxy is running.", Seq::empty()),
        ("nginx_start", "Start the nginx proxy.", Seq::empty()),
        ("nginx_stop", "Stop the nginx proxy.", Seq::empty()),
        ("nginx_reload", "Reload nginx config after changes.", Seq::empty()),
        ("scan_ports", "List currently listening TCP ports with PID and process name.", Seq::empty()),
        ("scan_projects", "Scan a directory tree for dev projects (Node/Rust/Python/Go/PHP).", seq![
                ToolParam { name: "root", kind: "string", description: Some("root folder (defaults to home)"), required: false },
                ToolParam { name: "depth", kind: "integer", description: Some("recursion depth (default 3)"), required: false },
            ]),
        ("doctor", "Run health checks on a domain: cert validity, hosts entry, upstream reachability.", seq![
                ToolParam { name: "domain", kind: "string", description: None, required: true },
            ]),
        ("docker_check", "Check whether Docker CLI + daemon are available.", Seq::empty()),
        ("compose_status", "List compose files + running services in a project directory.", seq![
                ToolParam { name: "project_path", kind: "string", description: None, required: true },
            ]),
        ("compose_up", "Run `docker compose up -d` in a project.", seq![
                ToolParam { name: "project_path", kind: "string", description: None, required: true },
                ToolParam { name: "file", kind: "string", description: Some("specific compose file name"), required: false },
            ]),
        ("compose_down", "Run `docker compose down`.", seq![
                ToolParam { name: "project_path", kind: "string", description: None, required: true },
                ToolParam { name: "file", kind: "string", description: None, required: false },
            ]),
        ("compose_restart", "Run `docker compose restart`.", seq![
                ToolParam { name: "project_path", kind: "string", description: None, required: true },
                ToolParam { name: "file", kind: "string", description: None, required: false },
            ]),
        ("compose_logs", "Read docker compose logs.", seq![
                ToolParam { name: "project_path", kind: "string", description: None, required: true },
                ToolParam { name: "file", kind: "string", description: None, required: false },
                ToolParam { name: "lines", kind: "integer", description: Some("default 200"), required: false },
            ]),
        ("compose_save_file", "Save a docker-compose YAML into a project directory.", seq![
                ToolParam { name: "project_path", kind: "string", description: None, required: true },
                ToolParam { name: "file_name", kind: "string", description: None, required: true },
                ToolParam { name: "content", kind: "string", description: None, required: true },
            ]),
        ("list_named_tunnels", "List registered Cloudflare named tunnels.", Seq::empty()),
        ("add_named_tunnel", "Register a Cloudflare named tunnel (before provisioning).", seq![
                ToolParam { name: "name", kind: "string", description: None, required: true },
                ToolParam { name: "hostname", kind: "string", description: None, required: true },
                ToolParam { name: "upstream", kind: "string", description: None, required: true },
            ]),
        ("open_domain", "Open https://<domain> in the user's default browser.", seq![
                ToolParam { name: "domain", kind: "string", description: None, required: true },
            ]),
    ]
}

/// The views of tool definitions.
pub open spec fn defs_view(v: Seq<ToolDef>) -> Seq<(&'static str, &'static str, Seq<ToolParam>)> {
    v.map_values(|d: ToolDef| (d.name, d.description, d.params@))
}

/// The tools offered, in the order they are listed.
pub fn tool_definitions() -> (r: Vec<ToolDef>)
    ensures
        defs_view(r@) == tool_table(),
{
    let mut v: Vec<ToolDef> = Vec::new();
    {
        let mut ps: Vec<ToolParam> = Vec::new();
        v.push(ToolDef { name: "list_domains", description: "List all configured local HTTPS domains.", params: ps });
    }
    {
        let mut ps: Vec<ToolParam> = Vec::new();
        ps.push(ToolParam { name: "domain", kind: "string", description: Some("e.g. myapp.test"), required: true });
        ps.push(ToolParam { name: "upstream", kind: "string", description: Some("e.g. http://127.0.0.1:3000"), required: true });
        v.push(ToolDef { name: "add_domain", description: "Register a new local HTTPS domain. Domain must end with .test or .local.", params: ps });
    }
    {
        let mut ps: Vec<ToolParam> = Vec::new();
        ps.push(ToolParam { name: "domain", kind: "string", description: None, required: true });
        v.push(ToolDef { name: "remove_domain", description: "Delete a local domain and its cert.", params: ps });
    }
    {
        let mut ps: Vec<ToolParam> = Vec::new();
        ps.push(ToolParam { name: "domain", kind: "string", description: None, required: true });
        v.push(ToolDef { name: "toggle_domain", description: "Enable or disable a domain.", params: ps });
    }
    {
        let mut ps: Vec<ToolParam> = Vec::new();
        ps.push(ToolParam { name: "domain", kind: "string", description: None, required: true });
        v.push(ToolDef { name: "toggle_cors", description: "Toggle permissive CORS headers for a domain.", params: ps });
    }
    {
        let mut ps: Vec<ToolParam> = Vec::new();
        v.push(ToolDef { name: "nginx_status", description: "Check whether the local nginx proxy is running.", params: ps });
    }
    {
        let mut ps: Vec<ToolParam> = Vec::new();
        v.push(ToolDef { name: "nginx_start", description: "Start the nginx proxy.", params: ps });
    }
    {
        let mut ps: Vec<ToolParam> = Vec::new();
        v.push(ToolDef { name: "nginx_stop", description: "Stop the nginx proxy.", params: ps });
    }
    {
        let mut ps: Vec<ToolParam> = Vec::new();
        v.push(ToolDef { name: "nginx_reload", description: "Reload nginx config after changes.", params: ps });
    }
    {
        let mut ps: Vec<ToolParam> = Vec::new();
        v.push(ToolDef { name: "scan_ports", description: "List currently listening TCP ports with PID and process name.", params: ps });
    }
    {
        let mut ps: Vec<ToolParam> = Vec::new();
        ps.push(ToolParam { name: "root", kind: "string", description: Some("root folder (defaults to home)"), required: false });
        ps.push(ToolParam { name: "depth", kind: "integer", description: Some("recursion depth (default 3)"), required: false });
        v.push(ToolDef { name: "scan_projects", description: "Scan a directory tree for dev projects (Node/Rust/Python/Go/PHP).", params: ps });
    }
    {
        let mut ps: Vec<ToolParam> = Vec::new();
        ps.push(ToolParam { name: "domain", kind: "string", description: None, required: true });
        v.push(ToolDef { name: "doctor", description: "Run health checks on a domain: cert validity, hosts entry, upstream reachability.", params: ps });
    }
    {
        let mut ps: Vec<ToolParam> = Vec::new();
        v.push(ToolDef { name: "docker_check", description: "Check whether Docker CLI + daemon are available.", params: ps });
    }
    {
        let mut ps: Vec<ToolParam> = Vec::new();
        ps.push(ToolParam { name: "project_path", kind: "string", description: None, required: true });
        v.push(ToolDef { name: "compose_status", description: "List compose files + running services in a project directory.", params: ps });
    }
    {
        let mut ps: Vec<ToolParam> = Vec::new();
        ps.push(ToolParam { name: "project_path", kind: "string", description: None, required: true });
        ps.push(ToolParam { name: "file", kind: "string", description: Some("specific compose file name"), required: false });
        v.push(ToolDef { name: "compose_up", description: "Run `docker compose up -d` in a project.", params: ps });
    }
    {
        let mut ps: Vec<ToolParam> = Vec::new();
        ps.push(ToolParam { name: "project_path", kind: "string", description: None, required: true });
        ps.push(ToolParam { name: "file", kind: "string", description: None, required: false });
        v.push(ToolDef { name: "compose_down", description: "Run `docker compose down`.", params: ps });
    }
    {
        let mut ps: Vec<ToolParam> = Vec::new();
        ps.push(ToolParam { name: "project_path", kind: "string", description: None, required: true });
        ps.push(ToolParam { name: "file", kind: "string", description: None, required: false });
        v.push(ToolDef { name: "compose_restart", description: "Run `docker compose restart`.", params: ps });
    }
    {
        let mut ps: Vec<ToolParam> = Vec::new();
        ps.push(ToolParam { name: "project_path", kind: "string", description: None, required: true });
        ps.push(ToolParam { name: "file", kind: "string", description: None, required: false });
        ps.push(ToolParam { name: "lines", kind: "integer", description: Some("default 200"), required: false });
        v.push(ToolDef { name: "compose_logs", description: "Read docker compose logs.", params: ps });
    }
    {
        let mut ps: Vec<ToolParam> = Vec::new();
        ps.push(ToolParam { name: "project_path", kind: "string", description: None, required: true });
        ps.push(ToolParam { name: "file_name", kind: "string", description: None, required: true });
        ps.push(ToolParam { name: "content", kind: "string", description: None, required: true });
        v.push(ToolDef { name: "compose_save_file", description: "Save a docker-compose YAML into a project directory.", params: ps });
    }
    {
        let mut ps: Vec<ToolParam> = Vec::new();
        v.push(ToolDef { name: "list_named_tunnels", description: "List registered Cloudflare named tunnels.", params: ps });
    }
    {
        let mut ps: Vec<ToolParam> = Vec::new();
        ps.push(ToolParam { name: "name", kind: "string", description: None, required: true });
        ps.push(ToolParam { name: "hostname", kind: "string", description: None, required: true });
        ps.push(ToolParam { name: "upstream", kind: "string", description: None, required: true });
        v.push(ToolDef { name: "add_named_tunnel", description: "Register a Cloudflare named tunnel (before provisioning).", params: ps });
    }
    {
        let mut ps: Vec<ToolParam> = Vec::new();
        ps.push(ToolParam { name: "domain", kind: "string", description: None, required: true });
        v.push(ToolDef { name: "open_domain", description: "Open https://<domain> in the user's default browser.", params: ps });
    }
    assert(defs_view(v@) =~~= tool_table());
    v
}


/// Every tool that `tools/list` offers is dispatched by its name.
pub proof fn law_listed_tool_dispatches(i: int)
    requires
        0 <= i < tool_table().len(),
    ensures
        tool_of(tool_table()[i].0@) is Some,
{
    if i == 0 {
        assert(tool_table()[0].0 == "list_domains");
    } else if i == 1 {
        assert(tool_table()[1].0 == "add_domain");
    } else if i == 2 {
        assert(tool_table()[2].0 == "remove_domain");
    } else if i == 3 {
        assert(tool_table()[3].0 == "toggle_domain");
    } else if i == 4 {
        assert(tool_table()[4].0 == "toggle_cors");
    } else if i == 5 {
        assert(tool_table()[5].0 == "nginx_status");
    } else if i == 6 {
        assert(tool_table()[6].0 == "nginx_start");
    } else if i == 7 {
        assert(tool_table()[7].0 == "nginx_stop");
    } else if i == 8 {
        assert(tool_table()[8].0 == "nginx_reload");
    } else if i == 9 {
        assert(tool_table()[9].0 == "scan_ports");
    } else if i == 10 {
        assert(tool_table()[10].0 == "scan_projects");
    } else if i == 11 {
        assert(tool_table()[11].0 == "doctor");
    } else if i == 12 {
        assert(tool_table()[12].0 == "docker_check");
    } else if i == 13 {
        assert(tool_table()[13].0 == "compose_status");
    } else if i == 14 {
        assert(tool_table()[14].0 == "compose_up");
    } else if i == 15 {
        assert(tool_table()[15].0 == "compose_down");
    } else if i == 16 {
        assert(tool_table()[16].0 == "compose_restart");
    } else if i == 17 {
        assert(tool_table()[17].0 == "compose_logs");
    } else if i == 18 {
        assert(tool_table()[18].0 == "compose_save_file");
    } else if i == 19 {
        assert(tool_table()[19].0 == "list_named_tunnels");
    } else if i == 20 {
        assert(tool_table()[20].0 == "add_named_tunnel");
    } else if i == 21 {
        assert(tool_table()[21].0 == "open_domain");
    }
}

/// Every name that dispatches to a tool is offered by `tools/list`.
pub proof fn law_dispatched_tool_listed(n: Seq<char>)
    requires
        tool_of(n) is Some,
    ensures
        exists|i: int| 0 <= i < tool_table().len() && (#[trigger] tool_table()[i]).0@ == n,
{
    if n == "list_domains"@ {
        assert(tool_table()[0].0@ == n);
    } else if n == "add_domain"@ {
        assert(tool_table()[1].0@ == n);
    } else if n == "remove_domain"@ {
        assert(tool_table()[2].0@ == n);
    } else if n == "toggle_domain"@ {
        assert(tool_table()[3].0@ == n);
    } else if n == "toggle_cors"@ {
        assert(tool_table()[4].0@ == n);
    } else if n == "nginx_status"@ {
        assert(tool_table()[5].0@ == n);
    } else if n == "nginx_start"@ {
        assert(tool_table()[6].0@ == n);
    } else if n == "nginx_stop"@ {
        assert(tool_table()[7].0@ == n);
    } else if n == "nginx_reload"@ {
        assert(tool_table()[8].0@ == n);
    } else if n == "scan_ports"@ {
        assert(tool_table()[9].0@ == n);
    } else if n == "scan_projects"@ {
        assert(tool_table()[10].0@ == n);
    } else if n == "doctor"@ {
        assert(tool_table()[11].0@ == n);
    } else if n == "docker_check"@ {
        assert(tool_table()[12].0@ == n);
    } else if n == "compose_status"@ {
        assert(tool_table()[13].0@ == n);
    } else if n == "compose_up"@ {
        assert(tool_table()[14].0@ == n);
    } else if n == "compose_down"@ {
        assert(tool_table()[15].0@ == n);
    } else if n == "compose_restart"@ {
        assert(tool_table()[16].0@ == n);
    } else if n == "compose_logs"@ {
        assert(tool_table()[17].0@ == n);
    } else if n == "compose_save_file"@ {
        assert(tool_table()[18].0@ == n);
    } else if n == "list_named_tunnels"@ {
        assert(tool_table()[19].0@ == n);
    } else if n == "add_named_tunnel"@ {
        assert(tool_table()[20].0@ == n);
    } else if n == "open_domain"@ {
        assert(tool_table()[21].0@ == n);
    }
}


/// Each tool name calls the tool of that very name: `nginx_stop` stops
/// nginx, `nginx_start` starts it, and so on for every tool offered.
pub proof fn law_tool_names()
    ensures
        tool_of("list_domains"@) == Some(McpTool::ListDomains),
        tool_of("add_domain"@) == Some(McpTool::AddDomain),
        tool_of("remove_domain"@) == Some(McpTool::RemoveDomain),
        tool_of("toggle_domain"@) == Some(McpTool::ToggleDomain),
        tool_of("toggle_cors"@) == Some(McpTool::ToggleCors),
        tool_of("nginx_status"@) == Some(McpTool::NginxStatus),
        tool_of("nginx_start"@) == Some(McpTool::NginxStart),
        tool_of("nginx_stop"@) == Some(McpTool::NginxStop),
        tool_of("nginx_reload"@) == Some(McpTool::NginxReload),
        tool_of("scan_ports"@) == Some(McpTool::ScanPorts),
        tool_of("scan_projects"@) == Some(McpTool::ScanProjects),
        tool_of("doctor"@) == Some(McpTool::Doctor),
        tool_of("docker_check"@) == Some(McpTool::DockerCheck),
        tool_of("compose_status"@) == Some(McpTool::ComposeStatus),
        tool_of("compose_up"@) == Some(McpTool::ComposeUp),
        tool_of("compose_down"@) == Some(McpTool::ComposeDown),
        tool_of("compose_restart"@) == Some(McpTool::ComposeRestart),
        tool_of("compose_logs"@) == Some(McpTool::ComposeLogs),
        tool_of("compose_save_file"@) == Some(McpTool::ComposeSaveFile),
        tool_of("list_named_tunnels"@) == Some(McpTool::ListNamedTunnels),
        tool_of("add_named_tunnel"@) == Some(McpTool::AddNamedTunnel),
        tool_of("open_domain"@) == Some(McpTool::OpenDomain),
{
    assert(tool_of("list_domains"@) == Some(McpTool::ListDomains)) by {
        reveal_strlit("list_domains");
    }
    assert(tool_of("add_domain"@) == Some(McpTool::AddDomain)) by {
        reveal_strlit("add_domain");
        reveal_strlit("list_domains");
        assert("add_domain"@.len() != "list_domains"@.len());
    }
    assert(tool_of("remove_domain"@) == Some(McpTool::RemoveDomain)) by {
        reveal_strlit("remove_domain");
        reveal_strlit("list_domains");
        assert("remove_domain"@.len() != "list_domains"@.len());
        reveal_strlit("add_domain");
        assert("remove_domain"@.len() != "add_domain"@.len());
    }
    assert(tool_of("toggle_domain"@) == Some(McpTool::ToggleDomain)) by {
        reveal_strlit("toggle_domain");
        reveal_strlit("list_domains");
        assert("toggle_domain"@.len() != "list_domains"@.len());
        reveal_strlit("add_domain");
        assert("toggle_domain"@.len() != "add_domain"@.len());
        reveal_strlit("remove_domain");
        assert("toggle_domain"@[0] != "remove_domain"@[0]);
    }
    assert(tool_of("toggle_cors"@) == Some(McpTool::ToggleCors)) by {
        reveal_strlit("toggle_cors");
        reveal_strlit("list_domains");
        assert("toggle_cors"@.len() != "list_domains"@.len());
        reveal_strlit("add_domain");
        assert("toggle_cors"@.len() != "add_domain"@.len());
        reveal_strlit("remove_domain");
        assert("toggle_cors"@.len() != "remove_domain"@.len());
        reveal_strlit("toggle_domain");
        assert("toggle_cors"@.len() != "toggle_domain"@.len());
    }
    assert(tool_of("nginx_status"@) == Some(McpTool::NginxStatus)) by {
        reveal_strlit("nginx_status");
        reveal_strlit("list_domains");
        assert("nginx_status"@[0] != "list_domains"@[0]);
        reveal_strlit("add_domain");
        assert("nginx_status"@.len() != "add_domain"@.len());
        reveal_strlit("remove_domain");
        assert("nginx_status"@.len() != "remove_domain"@.len());
        reveal_strlit("toggle_domain");
        assert("nginx_status"@.len() != "toggle_domain"@.len());
        reveal_strlit("toggle_cors");
        assert("nginx_status"@.len() != "toggle_cors"@.len());
    }
    assert(tool_of("nginx_start"@) == Some(McpTool::NginxStart)) by {
        reveal_strlit("nginx_start");
        reveal_strlit("list_domains");
        assert("nginx_start"@.len() != "list_domains"@.len());
        reveal_strlit("add_domain");
        assert("nginx_start"@.len() != "add_domain"@.len());
        reveal_strlit("remove_domain");
        assert("nginx_start"@.len() != "remove_domain"@.len());
        reveal_strlit("toggle_domain");
        assert("nginx_start"@.len() != "toggle_domain"@.len());
        reveal_strlit("toggle_cors");
        assert("nginx_start"@[0] != "toggle_cors"@[0]);
        reveal_strlit("nginx_status");
        assert("nginx_start"@.len() != "nginx_status"@.len());
    }
    assert(tool_of("nginx_stop"@) == Some(McpTool::NginxStop)) by {
        reveal_strlit("nginx_stop");
        reveal_strlit("list_domains");
        assert("nginx_stop"@.len() != "list_domains"@.len());
        reveal_strlit("add_domain");
        assert("nginx_stop"@[0] != "add_domain"@[0]);
        reveal_strlit("remove_domain");
        assert("nginx_stop"@.len() != "remove_domain"@.len());
        reveal_strlit("toggle_domain");
        assert("nginx_stop"@.len() != "toggle_domain"@.len());
        reveal_strlit("toggle_cors");
        assert("nginx_stop"@.len() != "toggle_cors"@.len());
        reveal_strlit("nginx_status");
        assert("nginx_stop"@.len() != "nginx_status"@.len());
        reveal_strlit("nginx_start");
        assert("nginx_stop"@.len() != "nginx_start"@.len());
    }
    assert(tool_of("nginx_reload"@) == Some(McpTool::NginxReload)) by {
        reveal_strlit("nginx_reload");
        reveal_strlit("list_domains");
        assert("nginx_reload"@[0] != "list_domains"@[0]);
        reveal_strlit("add_domain");
        assert("nginx_reload"@.len() != "add_domain"@.len());
        reveal_strlit("remove_domain");
        assert("nginx_reload"@.len() != "remove_domain"@.len());
        reveal_strlit("toggle_domain");
        assert("nginx_reload"@.len() != "toggle_domain"@.len());
        reveal_strlit("toggle_cors");
        assert("nginx_reload"@.len() != "toggle_cors"@.len());
        reveal_strlit("nginx_status");
        assert("nginx_reload"@[6] != "nginx_status"@[6]);
        reveal_strlit("nginx_start");
        assert("nginx_reload"@.len() != "nginx_start"@.len());
        reveal_strlit("nginx_stop");
        assert("nginx_reload"@.len() != "nginx_stop"@.len());
    }
    assert(tool_of("scan_ports"@) == Some(McpTool::ScanPorts)) by {
        reveal_strlit("scan_ports");
        reveal_strlit("list_domains");
        assert("scan_ports"@.len() != "list_domains"@.len());
        reveal_strlit("add_domain");
        assert("scan_ports"@[0] != "add_domain"@[0]);
        reveal_strlit("remove_domain");
        assert("scan_ports"@.len() != "remove_domain"@.len());
        reveal_strlit("toggle_domain");
        assert("scan_ports"@.len() != "toggle_domain"@.len());
        reveal_strlit("toggle_cors");
        assert("scan_ports"@.len() != "toggle_cors"@.len());
        reveal_strlit("nginx_status");
        assert("scan_ports"@.len() != "nginx_status"@.len());
        reveal_strlit("nginx_start");
        assert("scan_ports"@.len() != "nginx_start"@.len());
        reveal_strlit("nginx_stop");
        assert("scan_ports"@[0] != "nginx_stop"@[0]);
        reveal_strlit("nginx_reload");
        assert("scan_ports"@.len() != "nginx_reload"@.len());
    }
    assert(tool_of("scan_projects"@) == Some(McpTool::ScanProjects)) by {
        reveal_strlit("scan_projects");
        reveal_strlit("list_domains");
        assert("scan_projects"@.len() != "list_domains"@.len());
        reveal_strlit("add_domain");
        assert("scan_projects"@.len() != "add_domain"@.len());
        reveal_strlit("remove_domain");
        assert("scan_projects"@[0] != "remove_domain"@[0]);
        reveal_strlit("toggle_domain");
        assert("scan_projects"@[0] != "toggle_domain"@[0]);
        reveal_strlit("toggle_cors");
        assert("scan_projects"@.len() != "toggle_cors"@.len());
        reveal_strlit("nginx_status");
        assert("scan_projects"@.len() != "nginx_status"@.len());
        reveal_strlit("nginx_start");
        assert("scan_projects"@.len() != "nginx_start"@.len());
        reveal_strlit("nginx_stop");
        assert("scan_projects"@.len() != "nginx_stop"@.len());
        reveal_strlit("nginx_reload");
        assert("scan_projects"@.len() != "nginx_reload"@.len());
        reveal_strlit("scan_ports");
        assert("scan_projects"@.len() != "scan_ports"@.len());
    }
    assert(tool_of("doctor"@) == Some(McpTool::Doctor)) by {
        reveal_strlit("doctor");
        reveal_strlit("list_domains");
        assert("doctor"@.len() != "list_domains"@.len());
        reveal_strlit("add_domain");
        assert("doctor"@.len() != "add_domain"@.len());
        reveal_strlit("remove_domain");
        assert("doctor"@.len() != "remove_domain"@.len());
        reveal_strlit("toggle_domain");
        assert("doctor"@.len() != "toggle_domain"@.len());
        reveal_strlit("toggle_cors");
        assert("doctor"@.len() != "toggle_cors"@.len());
        reveal_strlit("nginx_status");
        assert("doctor"@.len() != "nginx_status"@.len());
        reveal_strlit("nginx_start");
        assert("doctor"@.len() != "nginx_start"@.len());
        reveal_strlit("nginx_stop");
        assert("doctor"@.len() != "nginx_stop"@.len());
        reveal_strlit("nginx_reload");
        assert("doctor"@.len() != "nginx_reload"@.len());
        reveal_strlit("scan_ports");
        assert("doctor"@.len() != "scan_ports"@.len());
        reveal_strlit("scan_projects");
        assert("doctor"@.len() != "scan_projects"@.len());
    }
    assert(tool_of("docker_check"@) == Some(McpTool::DockerCheck)) by {
        reveal_strlit("docker_check");
        reveal_strlit("list_domains");
        assert("docker_check"@[0] != "list_domains"@[0]);
        reveal_strlit("add_domain");
        assert("docker_check"@.len() != "add_domain"@.len());
        reveal_strlit("remove_domain");
        assert("docker_check"@.len() != "remove_domain"@.len());
        reveal_strlit("toggle_domain");
        assert("docker_check"@.len() != "toggle_domain"@.len());
        reveal_strlit("toggle_cors");
        assert("docker_check"@.len() != "toggle_cors"@.len());
        reveal_strlit("nginx_status");
        assert("docker_check"@[0] != "nginx_status"@[0]);
        reveal_strlit("nginx_start");
        assert("docker_check"@.len() != "nginx_start"@.len());
        reveal_strlit("nginx_stop");
        assert("docker_check"@.len() != "nginx_stop"@.len());
        reveal_strlit("nginx_reload");
        assert("docker_check"@[0] != "nginx_reload"@[0]);
        reveal_strlit("scan_ports");
        assert("docker_check"@.len() != "scan_ports"@.len());
        reveal_strlit("scan_projects");
        assert("docker_check"@.len() != "scan_projects"@.len());
        reveal_strlit("doctor");
        assert("docker_check"@.len() != "doctor"@.len());
    }
    assert(tool_of("compose_status"@) == Some(McpTool::ComposeStatus)) by {
        reveal_strlit("compose_status");
        reveal_strlit("list_domains");
        assert("compose_status"@.len() != "list_domains"@.len());
        reveal_strlit("add_domain");
        assert("compose_status"@.len() != "add_domain"@.len());
        reveal_strlit("remove_domain");
        assert("compose_status"@.len() != "remove_domain"@.len());
        reveal_strlit("toggle_domain");
        assert("compose_status"@.len() != "toggle_domain"@.len());
        reveal_strlit("toggle_cors");
        assert("compose_status"@.len() != "toggle_cors"@.len());
        reveal_strlit("nginx_status");
        assert("compose_status"@.len() != "nginx_status"@.len());
        reveal_strlit("nginx_start");
        assert("compose_status"@.len() != "nginx_start"@.len());
        reveal_strlit("nginx_stop");
        assert("compose_status"@.len() != "nginx_stop"@.len());
        reveal_strlit("nginx_reload");
        assert("compose_status"@.len() != "nginx_reload"@.len());
        reveal_strlit("scan_ports");
        assert("compose_status"@.len() != "scan_ports"@.len());
        reveal_strlit("scan_projects");
        assert("compose_status"@.len() != "scan_projects"@.len());
        reveal_strlit("doctor");
        assert("compose_status"@.len() != "doctor"@.len());
        reveal_strlit("docker_check");
        assert("compose_status"@.len() != "docker_check"@.len());
    }
    assert(tool_of("compose_up"@) == Some(McpTool::ComposeUp)) by {
        reveal_strlit("compose_up");
        reveal_strlit("list_domains");
        assert("compose_up"@.len() != "list_domains"@.len());
        reveal_strlit("add_domain");
        assert("compose_up"@[0] != "add_domain"@[0]);
        reveal_strlit("remove_domain");
        assert("compose_up"@.len() != "remove_domain"@.len());
        reveal_strlit("toggle_domain");
        assert("compose_up"@.len() != "toggle_domain"@.len());
        reveal_strlit("toggle_cors");
        assert("compose_up"@.len() != "toggle_cors"@.len());
        reveal_strlit("nginx_status");
        assert("compose_up"@.len() != "nginx_status"@.len());
        reveal_strlit("nginx_start");
        assert("compose_up"@.len() != "nginx_start"@.len());
        reveal_strlit("nginx_stop");
        assert("compose_up"@[0] != "nginx_stop"@[0]);
        reveal_strlit("nginx_reload");
        assert("compose_up"@.len() != "nginx_reload"@.len());
        reveal_strlit("scan_ports");
        assert("compose_up"@[0] != "scan_ports"@[0]);
        reveal_strlit("scan_projects");
        assert("compose_up"@.len() != "scan_projects"@.len());
        reveal_strlit("doctor");
        assert("compose_up"@.len() != "doctor"@.len());
        reveal_strlit("docker_check");
        assert("compose_up"@.len() != "docker_check"@.len());
        reveal_strlit("compose_status");
        assert("compose_up"@.len() != "compose_status"@.len());
    }
    assert(tool_of("compose_down"@) == Some(McpTool::ComposeDown)) by {
        reveal_strlit("compose_down");
        reveal_strlit("list_domains");
        assert("compose_down"@[0] != "list_domains"@[0]);
        reveal_strlit("add_domain");
        assert("compose_down"@.len() != "add_domain"@.len());
        reveal_strlit("remove_domain");
        assert("compose_down"@.len() != "remove_domain"@.len());
        reveal_strlit("toggle_domain");
        assert("compose_down"@.len() != "toggle_domain"@.len());
        reveal_strlit("toggle_cors");
        assert("compose_down"@.len() != "toggle_cors"@.len());
        reveal_strlit("nginx_status");
        assert("compose_down"@[0] != "nginx_status"@[0]);
        reveal_strlit("nginx_start");
        assert("compose_down"@.len() != "nginx_start"@.len());
        reveal_strlit("nginx_stop");
        assert("compose_down"@.len() != "nginx_stop"@.len());
        reveal_strlit("nginx_reload");
        assert("compose_down"@[0] != "nginx_reload"@[0]);
        reveal_strlit("scan_ports");
        assert("compose_down"@.len() != "scan_ports"@.len());
        reveal_strlit("scan_projects");
        assert("compose_down"@.len() != "scan_projects"@.len());
        reveal_strlit("doctor");
        assert("compose_down"@.len() != "doctor"@.len());
        reveal_strlit("docker_check");
        assert("compose_down"@[0] != "docker_check"@[0]);
        reveal_strlit("compose_status");
        assert("compose_down"@.len() != "compose_status"@.len());
        reveal_strlit("compose_up");
        assert("compose_down"@.len() != "compose_up"@.len());
    }
    assert(tool_of("compose_restart"@) == Some(McpTool::ComposeRestart)) by {
        reveal_strlit("compose_restart");
        reveal_strlit("list_domains");
        assert("compose_restart"@.len() != "list_domains"@.len());
        reveal_strlit("add_domain");
        assert("compose_restart"@.len() != "add_domain"@.len());
        reveal_strlit("remove_domain");
        assert("compose_restart"@.len() != "remove_domain"@.len());
        reveal_strlit("toggle_domain");
        assert("compose_restart"@.len() != "toggle_domain"@.len());
        reveal_strlit("toggle_cors");
        assert("compose_restart"@.len() != "toggle_cors"@.len());
        reveal_strlit("nginx_status");
        assert("compose_restart"@.len() != "nginx_status"@.len());
        reveal_strlit("nginx_start");
        assert("compose_restart"@.len() != "nginx_start"@.len());
        reveal_strlit("nginx_stop");
        assert("compose_restart"@.len() != "nginx_stop"@.len());
        reveal_strlit("nginx_reload");
        assert("compose_restart"@.len() != "nginx_reload"@.len());
        reveal_strlit("scan_ports");
        assert("compose_restart"@.len() != "scan_ports"@.len());
        reveal_strlit("scan_projects");
        assert("compose_restart"@.len() != "scan_projects"@.len());
        reveal_strlit("doctor");
        assert("compose_restart"@.len() != "doctor"@.len());
        reveal_strlit("docker_check");
        assert("compose_restart"@.len() != "docker_check"@.len());
        reveal_strlit("compose_status");
        assert("compose_restart"@.len() != "compose_status"@.len());
        reveal_strlit("compose_up");
        assert("compose_restart"@.len() != "compose_up"@.len());
        reveal_strlit("compose_down");
        assert("compose_restart"@.len() != "compose_down"@.len());
    }
    assert(tool_of("compose_logs"@) == Some(McpTool::ComposeLogs)) by {
        reveal_strlit("compose_logs");
        reveal_strlit("list_domains");
        assert("compose_logs"@[0] != "list_domains"@[0]);
        reveal_strlit("add_domain");
        assert("compose_logs"@.len() != "add_domain"@.len());
        reveal_strlit("remove_domain");
        assert("compose_logs"@.len() != "remove_domain"@.len());
        reveal_strlit("toggle_domain");
        assert("compose_logs"@.len() != "toggle_domain"@.len());
        reveal_strlit("toggle_cors");
        assert("compose_logs"@.len() != "toggle_cors"@.len());
        reveal_strlit("nginx_status");
        assert("compose_logs"@[0] != "nginx_status"@[0]);
        reveal_strlit("nginx_start");
        assert("compose_logs"@.len() != "nginx_start"@.len());
        reveal_strlit("nginx_stop");
        assert("compose_logs"@.len() != "nginx_stop"@.len());
        reveal_strlit("nginx_reload");
        assert("compose_logs"@[0] != "nginx_reload"@[0]);
        reveal_strlit("scan_ports");
        assert("compose_logs"@.len() != "scan_ports"@.len());
        reveal_strlit("scan_projects");
        assert("compose_logs"@.len() != "scan_projects"@.len());
        reveal_strlit("doctor");
        assert("compose_logs"@.len() != "doctor"@.len());
        reveal_strlit("docker_check");
        assert("compose_logs"@[0] != "docker_check"@[0]);
        reveal_strlit("compose_status");
        assert("compose_logs"@.len() != "compose_status"@.len());
        reveal_strlit("compose_up");
        assert("compose_logs"@.len() != "compose_up"@.len());
        reveal_strlit("compose_down");
        assert("compose_logs"@[8] != "compose_down"@[8]);
        reveal_strlit("compose_restart");
        assert("compose_logs"@.len() != "compose_restart"@.len());
    }
    assert(tool_of("compose_save_file"@) == Some(McpTool::ComposeSaveFile)) by {
        reveal_strlit("compose_save_file");
        reveal_strlit("list_domains");
        assert("compose_save_file"@.len() != "list_domains"@.len());
        reveal_strlit("add_domain");
        assert("compose_save_file"@.len() != "add_domain"@.len());
        reveal_strlit("remove_domain");
        assert("compose_save_file"@.len() != "remove_domain"@.len());
        reveal_strlit("toggle_domain");
        assert("compose_save_file"@.len() != "toggle_domain"@.len());
        reveal_strlit("toggle_cors");
        assert("compose_save_file"@.len() != "toggle_cors"@.len());
        reveal_strlit("nginx_status");
        assert("compose_save_file"@.len() != "nginx_status"@.len());
        reveal_strlit("nginx_start");
        assert("compose_save_file"@.len() != "nginx_start"@.len());
        reveal_strlit("nginx_stop");
        assert("compose_save_file"@.len() != "nginx_stop"@.len());
        reveal_strlit("nginx_reload");
        assert("compose_save_file"@.len() != "nginx_reload"@.len());
        reveal_strlit("scan_ports");
        assert("compose_save_file"@.len() != "scan_ports"@.len());
        reveal_strlit("scan_projects");
        assert("compose_save_file"@.len() != "scan_projects"@.len());
        reveal_strlit("doctor");
        assert("compose_save_file"@.len() != "doctor"@.len());
        reveal_strlit("docker_check");
        assert("compose_save_file"@.len() != "docker_check"@.len());
        reveal_strlit("compose_status");
        assert("compose_save_file"@.len() != "compose_status"@.len());
        reveal_strlit("compose_up");
        assert("compose_save_file"@.len() != "compose_up"@.len());
        reveal_strlit("compose_down");
        assert("compose_save_file"@.len() != "compose_down"@.len());
        reveal_strlit("compose_restart");
        assert("compose_save_file"@.len() != "compose_restart"@.len());
        reveal_strlit("compose_logs");
        assert("compose_save_file"@.len() != "compose_logs"@.len());
    }
    assert(tool_of("list_named_tunnels"@) == Some(McpTool::ListNamedTunnels)) by {
        reveal_strlit("list_named_tunnels");
        reveal_strlit("list_domains");
        assert("list_named_tunnels"@.len() != "list_domains"@.len());
        reveal_strlit("add_domain");
        assert("list_named_tunnels"@.len() != "add_domain"@.len());
        reveal_strlit("remove_domain");
        assert("list_named_tunnels"@.len() != "remove_domain"@.len());
        reveal_strlit("toggle_domain");
        assert("list_named_tunnels"@.len() != "toggle_domain"@.len());
        reveal_strlit("toggle_cors");
        assert("list_named_tunnels"@.len() != "toggle_cors"@.len());
        reveal_strlit("nginx_status");
        assert("list_named_tunnels"@.len() != "nginx_status"@.len());
        reveal_strlit("nginx_start");
        assert("list_named_tunnels"@.len() != "nginx_start"@.len());
        reveal_strlit("nginx_stop");
        assert("list_named_tunnels"@.len() != "nginx_stop"@.len());
        reveal_strlit("nginx_reload");
        assert("list_named_tunnels"@.len() != "nginx_reload"@.len());
        reveal_strlit("scan_ports");
        assert("list_named_tunnels"@.len() != "scan_ports"@.len());
        reveal_strlit("scan_projects");
        assert("list_named_tunnels"@.len() != "scan_projects"@.len());
        reveal_strlit("doctor");
        assert("list_named_tunnels"@.len() != "doctor"@.len());
        reveal_strlit("docker_check");
        assert("list_named_tunnels"@.len() != "docker_check"@.len());
        reveal_strlit("compose_status");
        assert("list_named_tunnels"@.len() != "compose_status"@.len());
        reveal_strlit("compose_up");
        assert("list_named_tunnels"@.len() != "compose_up"@.len());
        reveal_strlit("compose_down");
        assert("list_named_tunnels"@.len() != "compose_down"@.len());
        reveal_strlit("compose_restart");
        assert("list_named_tunnels"@.len() != "compose_restart"@.len());
        reveal_strlit("compose_logs");
        assert("list_named_tunnels"@.len() != "compose_logs"@.len());
        reveal_strlit("compose_save_file");
        assert("list_named_tunnels"@.len() != "compose_save_file"@.len());
    }
    assert(tool_of("add_named_tunnel"@) == Some(McpTool::AddNamedTunnel)) by {
        reveal_strlit("add_named_tunnel");
        reveal_strlit("list_domains");
        assert("add_named_tunnel"@.len() != "list_domains"@.len());
        reveal_strlit("add_domain");
        assert("add_named_tunnel"@.len() != "add_domain"@.len());
        reveal_strlit("remove_domain");
        assert("add_named_tunnel"@.len() != "remove_domain"@.len());
        reveal_strlit("toggle_domain");
        assert("add_named_tunnel"@.len() != "toggle_domain"@.len());
        reveal_strlit("toggle_cors");
        assert("add_named_tunnel"@.len() != "toggle_cors"@.len());
        reveal_strlit("nginx_status");
        assert("add_named_tunnel"@.len() != "nginx_status"@.len());
        reveal_strlit("nginx_start");
        assert("add_named_tunnel"@.len() != "nginx_start"@.len());
        reveal_strlit("nginx_stop");
        assert("add_named_tunnel"@.len() != "nginx_stop"@.len());
        reveal_strlit("nginx_reload");
        assert("add_named_tunnel"@.len() != "nginx_reload"@.len());
        reveal_strlit("scan_ports");
        assert("add_named_tunnel"@.len() != "scan_ports"@.len());
        reveal_strlit("scan_projects");
        assert("add_named_tunnel"@.len() != "scan_projects"@.len());
        reveal_strlit("doctor");
        assert("add_named_tunnel"@.len() != "doctor"@.len());
        reveal_strlit("docker_check");
        assert("add_named_tunnel"@.len() != "docker_check"@.len());
        reveal_strlit("compose_status");
        assert("add_named_tunnel"@.len() != "compose_status"@.len());
        reveal_strlit("compose_up");
        assert("add_named_tunnel"@.len() != "compose_up"@.len());
        reveal_strlit("compose_down");
        assert("add_named_tunnel"@.len() != "compose_down"@.len());
        reveal_strlit("compose_restart");
        assert("add_named_tunnel"@.len() != "compose_restart"@.len());
        reveal_strlit("compose_logs");
        assert("add_named_tunnel"@.len() != "compose_logs"@.len());
        reveal_strlit("compose_save_file");
        assert("add_named_tunnel"@.len() != "compose_save_file"@.len());
        reveal_strlit("list_named_tunnels");
        assert("add_named_tunnel"@.len() != "list_named_tunnels"@.len());
    }
    assert(tool_of("open_domain"@) == Some(McpTool::OpenDomain)) by {
        reveal_strlit("open_domain");
        reveal_strlit("list_domains");
        assert("open_domain"@.len() != "list_domains"@.len());
        reveal_strlit("add_domain");
        assert("open_domain"@.len() != "add_domain"@.len());
        reveal_strlit("remove_domain");
        assert("open_domain"@.len() != "remove_domain"@.len());
        reveal_strlit("toggle_domain");
        assert("open_domain"@.len() != "toggle_domain"@.len());
        reveal_strlit("toggle_cors");
        assert("open_domain"@[0] != "toggle_cors"@[0]);
        reveal_strlit("nginx_status");
        assert("open_domain"@.len() != "nginx_status"@.len());
        reveal_strlit("nginx_start");
        assert("open_domain"@[0] != "nginx_start"@[0]);
        reveal_strlit("nginx_stop");
        assert("open_domain"@.len() != "nginx_stop"@.len());
        reveal_strlit("nginx_reload");
        assert("open_domain"@.len() != "nginx_reload"@.len());
        reveal_strlit("scan_ports");
        assert("open_domain"@.len() != "scan_ports"@.len());
        reveal_strlit("scan_projects");
        assert("open_domain"@.len() != "scan_projects"@.len());
        reveal_strlit("doctor");
        assert("open_domain"@.len() != "doctor"@.len());
        reveal_strlit("docker_check");
        assert("open_domain"@.len() != "docker_check"@.len());
        reveal_strlit("compose_status");
        assert("open_domain"@.len() != "compose_status"@.len());
        reveal_strlit("compose_up");
        assert("open_domain"@.len() != "compose_up"@.len());
        reveal_strlit("compose_down");
        assert("open_domain"@.len() != "compose_down"@.len());
        reveal_strlit("compose_restart");
        assert("open_domain"@.len() != "compose_restart"@.len());
        reveal_strlit("compose_logs");
        assert("open_domain"@.len() != "compose_logs"@.len());
        reveal_strlit("compose_save_file");
        assert("open_domain"@.len() != "compose_save_file"@.len());
        reveal_strlit("list_named_tunnels");
        assert("open_domain"@.len() != "list_named_tunnels"@.len());
        reveal_strlit("add_named_tunnel");
        assert("open_domain"@.len() != "add_named_tunnel"@.len());
    }
}
} // verus!
