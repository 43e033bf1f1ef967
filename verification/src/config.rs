use vstd::prelude::*;

use crate::config_file::ConfigFile;

verus! {

/// How tool calls other than edits are handled.
#[derive(Clone, Copy, Debug, PartialEq, Eq, Structural)]
pub enum ToolApproval {
    Allow,
    Deny,
    Ask,
}

/// The name under which a tool-approval mode is shown and configured.
pub open spec fn approval_name(a: ToolApproval) -> Seq<char> {
    match a {
        ToolApproval::Allow => "allow"@,
        ToolApproval::Deny => "deny"@,
        ToolApproval::Ask => "ask"@,
    }
}

/// Each mode has a name of its own.
pub proof fn lemma_approval_names_distinct(a: ToolApproval, b: ToolApproval)
    ensures
        approval_name(a) == approval_name(b) <==> a == b,
{
    reveal_strlit("allow");
    reveal_strlit("deny");
    reveal_strlit("ask");
    if a != b {
        assert(approval_name(a)[0] != approval_name(b)[0] || approval_name(a).len()
            != approval_name(b).len());
    }
}

impl ToolApproval {
    pub fn as_str(&self) -> (r: &'static str)
        ensures
            r@ == approval_name(*self),
    {
        match self {
            ToolApproval::Allow => "allow",
            ToolApproval::Deny => "deny",
            ToolApproval::Ask => "ask",
        }
    }
}

/// An OpenAI-compatible endpoint and the model to ask there.
pub struct BackendConfig {
    pub base_url: String,
    pub api_key: String,
    pub model: String,
}

/// A setting's value, or the fallback when it is not set.
pub open spec fn or_default(v: Option<String>, default: Seq<char>) -> Seq<char> {
    match v {
        Some(s) => s@,
        None => default,
    }
}

fn value_or(v: Option<String>, default: &str) -> (r: String)
    ensures
        r@ == or_default(v, default@),
{
    match v {
        Some(s) => s,
        None => default.to_owned(),
    }
}

impl BackendConfig {
    /// The main backend from its settings (`OPENAI_BASE_URL`,
    /// `OPENAI_API_KEY`, `AXON_MODEL`), each `None` when unset: the URL falls
    /// back to `http://localhost:8080/v1`, the key to `x`, the model to empty.
    pub fn from_settings(base_url: Option<String>, api_key: Option<String>, model: Option<String>) -> (r:
        Self)
        ensures
            r.base_url@ == or_default(base_url, "http://localhost:8080/v1"@),
            r.api_key@ == or_default(api_key, "x"@),
            r.model@ == or_default(model, ""@),
    {
        BackendConfig {
            base_url: value_or(base_url, "http://localhost:8080/v1"),
            api_key: value_or(api_key, "x"),
            model: value_or(model, ""),
        }
    }

    /// The planning backend from its settings (`AXON_PLANNING_BASE_URL`,
    /// `AXON_PLANNING_API_KEY`, `OPENAI_API_KEY`, `AXON_PLANNING_MODEL`):
    /// there is one exactly when its URL is set; its key falls back to the
    /// main key and then to `x`, its model to empty.
    pub fn from_planning_settings(
        base_url: Option<String>,
        planning_api_key: Option<String>,
        openai_api_key: Option<String>,
        model: Option<String>,
    ) -> (r: Option<Self>)
        ensures
            base_url is None ==> r is None,
            base_url matches Some(u) ==> r matches Some(c) && c.base_url@ == u@ && c.api_key@
                == (match planning_api_key {
                Some(k) => k@,
                None => or_default(openai_api_key, "x"@),
            }) && c.model@ == or_default(model, ""@),
    {
        match base_url {
            None => None,
            Some(u) => {
                let api_key = match planning_api_key {
                    Some(k) => k,
                    None => value_or(openai_api_key, "x"),
                };
                Some(BackendConfig { base_url: u, api_key, model: value_or(model, "") })
            },
        }
    }
}

/// The agent's configuration.
pub struct Config {
    pub backend: BackendConfig,
    /// When present, the planning phase uses this backend; otherwise all
    /// inference goes to `backend`.
    pub planning_backend: Option<BackendConfig>,
    pub tool_approval: ToolApproval,
}

impl Config {
    /// The configuration for these backends, asking before each tool call.
    pub fn new(backend: BackendConfig, planning_backend: Option<BackendConfig>) -> (r: Self)
        ensures
            r.backend == backend,
            r.planning_backend == planning_backend,
            r.tool_approval == ToolApproval::Ask,
    {
        Config { backend, planning_backend, tool_approval: ToolApproval::Ask }
    }
}

/// The settings the environment gives, each `None` when unset.
pub struct Environment {
    /// `OPENAI_BASE_URL`
    pub base_url: Option<String>,
    /// `OPENAI_API_KEY`
    pub api_key: Option<String>,
    /// `AXON_MODEL`
    pub model: Option<String>,
    /// `AXON_PLANNING_BASE_URL`
    pub planning_base_url: Option<String>,
    /// `AXON_PLANNING_API_KEY`
    pub planning_api_key: Option<String>,
    /// `AXON_PLANNING_MODEL`
    pub planning_model: Option<String>,
}

/// The first of two settings that is set.
pub open spec fn preferred(first: Option<String>, then: Option<String>) -> Option<String> {
    if first is Some {
        first
    } else {
        then
    }
}

fn prefer(first: Option<String>, then: Option<String>) -> (r: Option<String>)
    ensures
        r == preferred(first, then),
{
    match first {
        Some(v) => Some(v),
        None => then,
    }
}

fn copy_setting(v: &Option<String>) -> (r: Option<String>)
    ensures
        r == *v,
{
    match v {
        Some(s) => {
            let c = s.clone();
            assert(c == *s);
            Some(c)
        },
        None => None,
    }
}

impl Config {
    /// The configuration at start-up: the settings file's backend URL and
    /// model win over the environment's, which win over the defaults; the
    /// API key and the planning backend come from the environment; the
    /// approval mode is the file's, `ask` where it sets none.
    pub fn load(env: Environment, file: ConfigFile) -> (c: Self)
        ensures
            c.backend.base_url@ == or_default(
                preferred(file.base_url, env.base_url),
                "http://localhost:8080/v1"@,
            ),
            c.backend.api_key@ == or_default(env.api_key, "x"@),
            c.backend.model@ == or_default(preferred(file.model, env.model), ""@),
            env.planning_base_url is None ==> c.planning_backend is None,
            env.planning_base_url matches Some(u) ==> c.planning_backend matches Some(p)
                && p.base_url@ == u@ && p.api_key@ == (match env.planning_api_key {
                Some(k) => k@,
                None => or_default(env.api_key, "x"@),
            }) && p.model@ == or_default(env.planning_model, ""@),
            c.tool_approval == match file.tool_approval {
                Some(a) => a,
                None => ToolApproval::Ask,
            },
    {
        let main_key = copy_setting(&env.api_key);
        let backend = BackendConfig::from_settings(
            prefer(file.base_url, env.base_url),
            env.api_key,
            prefer(file.model, env.model),
        );
        let planning_backend = BackendConfig::from_planning_settings(
            env.planning_base_url,
            env.planning_api_key,
            main_key,
            env.planning_model,
        );
        let tool_approval = match file.tool_approval {
            Some(a) => a,
            None => ToolApproval::Ask,
        };
        Config { backend, planning_backend, tool_approval }
    }
}

/// The status line: backend URL, model (or `placeholder` when none is set)
/// and tool-approval mode, separated by bars.
pub open spec fn status_text(c: Config, placeholder: Seq<char>) -> Seq<char> {
    "  "@ + c.backend.base_url@ + "  │  "@ + (if c.backend.model@.len() == 0 {
        placeholder
    } else {
        c.backend.model@
    }) + "  │  tools: "@ + approval_name(c.tool_approval)
}

/// The status line ends with `"  │  tools: "` and the name of the
/// configuration's own approval mode.
pub proof fn lemma_status_names_mode(c: Config, placeholder: Seq<char>)
    ensures
        ({
            let t = status_text(c, placeholder);
            let k = approval_name(c.tool_approval).len() + 12;
            &&& t.len() >= k
            &&& t.skip(t.len() - k) == "  │  tools: "@ + approval_name(c.tool_approval)
        }),
{
    reveal_strlit("  │  tools: ");
    let t = status_text(c, placeholder);
    let k = approval_name(c.tool_approval).len() + 12;
    assert(t.skip(t.len() - k) =~= "  │  tools: "@ + approval_name(c.tool_approval));
}

/// Two configurations that differ only in their approval mode show
/// different status lines.
pub proof fn lemma_status_tells_modes_apart(c1: Config, c2: Config, placeholder: Seq<char>)
    requires
        c1.backend == c2.backend,
        c1.tool_approval != c2.tool_approval,
    ensures
        status_text(c1, placeholder) != status_text(c2, placeholder),
{
    reveal_strlit("allow");
    reveal_strlit("deny");
    reveal_strlit("ask");
    let n1 = approval_name(c1.tool_approval);
    let n2 = approval_name(c2.tool_approval);
    assert(n1.len() != n2.len());
    let head = "  "@ + c1.backend.base_url@ + "  │  "@ + (if c1.backend.model@.len() == 0 {
        placeholder
    } else {
        c1.backend.model@
    }) + "  │  tools: "@;
    assert(status_text(c1, placeholder) == head + n1);
    assert(status_text(c2, placeholder) == head + n2);
    assert((head + n1).len() != (head + n2).len());
}

/// The placeholder the terminal's live area shows for an unset model.
pub open spec fn live_placeholder() -> Seq<char> {
    "(no model)"@
}

/// The placeholder the full-screen status panel shows for an unset model.
pub open spec fn panel_placeholder() -> Seq<char> {
    "(no model set)"@
}

fn status_with(c: &Config, placeholder: &str) -> (r: String)
    ensures
        r@ == status_text(*c, placeholder@),
{
    let mut r = String::from_str("  ");
    r.append(c.backend.base_url.as_str());
    r.append("  │  ");
    if c.backend.model.as_str().is_empty() {
        r.append(placeholder);
    } else {
        r.append(c.backend.model.as_str());
    }
    r.append("  │  tools: ");
    r.append(c.tool_approval.as_str());
    r
}

/// The status line under the live area and the approval prompt.
pub fn status_line(c: &Config) -> (r: String)
    ensures
        r@ == status_text(*c, live_placeholder()),
{
    status_with(c, "(no model)")
}

/// The text of the full-screen status panel.
pub fn panel_status_line(c: &Config) -> (r: String)
    ensures
        r@ == status_text(*c, panel_placeholder()),
{
    status_with(c, "(no model set)")
}

} // verus!
