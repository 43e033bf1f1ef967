//! The tools the model may call, and what a call asks to be done.
//!
//! The library decides which tool a call names and checks that its
//! arguments are there; reading and writing files and running commands is
//! left to the caller.
use vstd::prelude::*;

use crate::config::ToolApproval;
use crate::text::chars_of;

verus! {

/// Whether two strings hold the same characters.
pub fn same_text(a: &str, b: &str) -> (r: bool)
    ensures
        r == (a@ == b@),
{
    let x = chars_of(a);
    let y = chars_of(b);
    if x.len() != y.len() {
        return false;
    }
    let mut i: usize = 0;
    while i < x.len()
        invariant
            x@ == a@,
            y@ == b@,
            x@.len() == y@.len(),
            i <= x@.len(),
            forall|j: int| 0 <= j < i ==> x@[j] == y@[j],
        decreases x@.len() - i,
    {
        if x[i] != y[i] {
            return false;
        }
        i = i + 1;
    }
    assert(a@ =~= b@);
    true
}

/// Runs tools rooted at a working directory.
pub struct ToolExecutor {
    working_dir: String,
}

/// The string arguments a tool call gives under `path`, `content` and
/// `command` (absent when missing or not a string).
pub struct ToolArgs {
    pub path: Option<String>,
    pub content: Option<String>,
    pub command: Option<String>,
}

/// What a tool call asks for.
pub enum ToolRequest {
    /// Read the file at `path`, relative to the working directory.
    ReadFile { path: String },
    /// Write `content` to the file at `path`, creating its directories.
    EditFile { path: String, content: String },
    /// Run `command` with `sh -c` in the working directory.
    Shell { command: String },
}

/// Why a tool call cannot be run.
#[derive(Debug)]
pub enum ToolError {
    UnknownTool(String),
    MissingPath,
    MissingContent,
    MissingCommand,
    /// The approval mode is `deny`, which blocks tools other than edits.
    Denied,
    /// The user answered no.
    Rejected,
}

/// The error message of a refused tool call.
pub open spec fn tool_error_text(e: ToolError) -> Seq<char> {
    match e {
        ToolError::UnknownTool(n) => "unknown tool: "@ + n@,
        ToolError::MissingPath => "missing path"@,
        ToolError::MissingContent => "missing content"@,
        ToolError::MissingCommand => "missing command"@,
        ToolError::Denied => "denied: tool_approval is deny"@,
        ToolError::Rejected => "rejected by the user"@,
    }
}

impl ToolError {
    pub fn message(&self) -> (r: String)
        ensures
            r@ == tool_error_text(*self),
    {
        match self {
            ToolError::UnknownTool(n) => {
                let mut r = String::from_str("unknown tool: ");
                r.append(n.as_str());
                r
            },
            ToolError::MissingPath => String::from_str("missing path"),
            ToolError::MissingContent => String::from_str("missing content"),
            ToolError::MissingCommand => String::from_str("missing command"),
            ToolError::Denied => String::from_str("denied: tool_approval is deny"),
            ToolError::Rejected => String::from_str("rejected by the user"),
        }
    }
}

pub open spec fn arg_view(o: Option<String>) -> Option<Seq<char>> {
    match o {
        Some(s) => Some(s@),
        None => None,
    }
}

/// `r` is what a call of tool `name` asks for, given the string arguments
/// `path`, `content` and `command` (each absent when not given): the three
/// known tools need their arguments, any other name is refused.
pub open spec fn plans_with(
    name: Seq<char>,
    path: Option<Seq<char>>,
    content: Option<Seq<char>>,
    command: Option<Seq<char>>,
    r: Result<ToolRequest, ToolError>,
) -> bool {
    if name == "read_file"@ {
        match path {
            Some(p) => r matches Ok(ToolRequest::ReadFile { path }) && path@ == p,
            None => r matches Err(ToolError::MissingPath),
        }
    } else if name == "edit_file"@ {
        match (path, content) {
            (Some(p), Some(c)) => r matches Ok(ToolRequest::EditFile { path, content })
                && path@ == p && content@ == c,
            (None, _) => r matches Err(ToolError::MissingPath),
            (Some(_), None) => r matches Err(ToolError::MissingContent),
        }
    } else if name == "shell"@ {
        match command {
            Some(c) => r matches Ok(ToolRequest::Shell { command }) && command@ == c,
            None => r matches Err(ToolError::MissingCommand),
        }
    } else {
        r matches Err(ToolError::UnknownTool(n)) && n@ == name
    }
}

/// `r` is what a call of tool `name` with arguments `args` asks for.
pub open spec fn plans(name: Seq<char>, args: ToolArgs, r: Result<ToolRequest, ToolError>) -> bool {
    plans_with(name, arg_view(args.path), arg_view(args.content), arg_view(args.command), r)
}

impl ToolExecutor {
    /// The directory tools run in.
    pub closed spec fn dir(self) -> Seq<char> {
        self.working_dir@
    }

    pub fn new(working_dir: String) -> (r: Self)
        ensures
            r.dir() == working_dir@,
    {
        ToolExecutor { working_dir }
    }

    pub fn working_dir(&self) -> (r: &str)
        ensures
            r@ == self.dir(),
    {
        self.working_dir.as_str()
    }

    /// What a call of tool `name` with the JSON arguments `args_json` asks
    /// for, or why it cannot run.
    pub fn plan_call(&self, name: &str, args_json: &str) -> (r: Result<ToolRequest, ToolError>)
        ensures
            plans_with(
                name@,
                json_str_field(args_json@, "path"@),
                json_str_field(args_json@, "content"@),
                json_str_field(args_json@, "command"@),
                r,
            ),
    {
        self.plan(name, tool_args(args_json))
    }

    /// What is to happen to a call of tool `name` with the JSON arguments
    /// `args_json` under approval mode `mode`: a call that cannot be planned
    /// is refused with the reason, any other goes as `decide` says.
    pub fn next_action(&self, mode: ToolApproval, name: &str, args_json: &str) -> (a: ToolAction)
        ensures
            exists|r: Result<ToolRequest, ToolError>|
                plans_with(
                    name@,
                    json_str_field(args_json@, "path"@),
                    json_str_field(args_json@, "content"@),
                    json_str_field(args_json@, "command"@),
                    r,
                ) && match r {
                    Ok(req) => decides(mode, req, a),
                    Err(e) => a == ToolAction::Refuse(e),
                },
    {
        match self.plan_call(name, args_json) {
            Ok(request) => decide(mode, request),
            Err(e) => ToolAction::Refuse(e),
        }
    }

    /// What a call of tool `name` with `args` asks for, or why it cannot run.
    pub fn plan(&self, name: &str, args: ToolArgs) -> (r: Result<ToolRequest, ToolError>)
        ensures
            plans(name@, args, r),
    {
        if same_text(name, "read_file") {
            match args.path {
                Some(path) => Ok(ToolRequest::ReadFile { path }),
                None => Err(ToolError::MissingPath),
            }
        } else if same_text(name, "edit_file") {
            match (args.path, args.content) {
                (Some(path), Some(content)) => Ok(ToolRequest::EditFile { path, content }),
                (None, _) => Err(ToolError::MissingPath),
                (Some(_), None) => Err(ToolError::MissingContent),
            }
        } else if same_text(name, "shell") {
            match args.command {
                Some(command) => Ok(ToolRequest::Shell { command }),
                None => Err(ToolError::MissingCommand),
            }
        } else {
            Err(ToolError::UnknownTool(name.to_owned()))
        }
    }
}

/// A name for what `serde_json` finds under `key` in a JSON text: the string
/// there when the text is a JSON object whose `key` holds a string, `None`
/// otherwise.
pub uninterp spec fn json_str_field(json: Seq<char>, key: Seq<char>) -> Option<Seq<char>>;

/// Calls `serde_json::from_str::<serde_json::Value>` on `json` and reads the
/// parsed value at `key` with `Value::as_str`. The contract claims only that
/// the result is a function of the text and the key, named `json_str_field`.
#[verifier::external_body]
fn str_field(json: &str, key: &str) -> (r: Option<String>)
    ensures
        arg_view(r) == json_str_field(json@, key@),
{
    match serde_json::from_str::<serde_json::Value>(json) {
        Ok(v) => v[key].as_str().map(|s| s.to_string()),
        Err(_) => None,
    }
}

/// The string arguments that a tool call's JSON arguments give.
pub fn tool_args(args_json: &str) -> (a: ToolArgs)
    ensures
        arg_view(a.path) == json_str_field(args_json@, "path"@),
        arg_view(a.content) == json_str_field(args_json@, "content"@),
        arg_view(a.command) == json_str_field(args_json@, "command"@),
{
    ToolArgs {
        path: str_field(args_json, "path"),
        content: str_field(args_json, "content"),
        command: str_field(args_json, "command"),
    }
}

/// What is to happen to a tool call.
pub enum ToolAction {
    /// Run the request now.
    Run(ToolRequest),
    /// Show the edit's diff, and write `after` to `path` only once the user
    /// has said yes.
    AwaitApproval { path: String, after: String },
    /// Ask the user before running the request.
    AskFirst(ToolRequest),
    /// Run nothing, and report this error as the call's result.
    Refuse(ToolError),
}

/// The action for `request` under approval mode `mode`: every edit waits for
/// the user's approval; other tools run under `allow`, are asked about
/// under `ask` and are refused under `deny`.
pub open spec fn decides(mode: ToolApproval, request: ToolRequest, a: ToolAction) -> bool {
    match request {
        ToolRequest::EditFile { path, content } => a matches ToolAction::AwaitApproval {
            path: p,
            after,
        } && p@ == path@ && after@ == content@,
        _ => match mode {
            ToolApproval::Allow => a == ToolAction::Run(request),
            ToolApproval::Ask => a == ToolAction::AskFirst(request),
            ToolApproval::Deny => a matches ToolAction::Refuse(ToolError::Denied),
        },
    }
}

/// Whatever the mode, an edit is never run at once: it waits for the
/// user's approval, with the path and content that the call gave.
pub proof fn lemma_edit_waits_in_every_mode(
    mode: ToolApproval,
    path: String,
    content: String,
    a: ToolAction,
)
    requires
        decides(mode, ToolRequest::EditFile { path, content }, a),
    ensures
        !(a is Run) && !(a is Refuse),
        a matches ToolAction::AwaitApproval { path: p, after } && p@ == path@ && after@ == content@,
{
}

/// Under `deny` no request is run or asked about: an edit waits for the
/// user's approval, anything else is refused.
pub proof fn lemma_deny_runs_nothing(request: ToolRequest, a: ToolAction)
    requires
        decides(ToolApproval::Deny, request, a),
    ensures
        !(a is Run) && !(a is AskFirst),
        request is EditFile <==> a is AwaitApproval,
{
}

/// Only `allow` runs a request without asking, and then only one that is
/// not an edit.
pub proof fn lemma_run_only_when_allowed(mode: ToolApproval, request: ToolRequest, a: ToolAction)
    requires
        decides(mode, request, a),
        a is Run,
    ensures
        mode == ToolApproval::Allow,
        !(request is EditFile),
        a == ToolAction::Run(request),
{
}

/// Under `ask` every request other than an edit, a file read included, is
/// asked about as it stands.
pub proof fn lemma_ask_asks_first(request: ToolRequest, a: ToolAction)
    requires
        decides(ToolApproval::Ask, request, a),
        !(request is EditFile),
    ensures
        a == ToolAction::AskFirst(request),
{
}

/// Under `allow` every request other than an edit, a file read included,
/// runs as it stands.
pub proof fn lemma_allow_runs(request: ToolRequest, a: ToolAction)
    requires
        decides(ToolApproval::Allow, request, a),
        !(request is EditFile),
    ensures
        a == ToolAction::Run(request),
{
}

/// A request is refused only under `deny`, and never an edit.
pub proof fn lemma_refused_only_under_deny(mode: ToolApproval, request: ToolRequest, a: ToolAction)
    requires
        decides(mode, request, a),
        a is Refuse,
    ensures
        mode == ToolApproval::Deny,
        !(request is EditFile),
        a matches ToolAction::Refuse(ToolError::Denied),
{
}

/// Decides what happens to a planned request under an approval mode.
pub fn decide(mode: ToolApproval, request: ToolRequest) -> (a: ToolAction)
    ensures
        decides(mode, request, a),
        !(request is EditFile) && mode == ToolApproval::Allow ==> a == ToolAction::Run(request),
        !(request is EditFile) && mode == ToolApproval::Ask ==> a == ToolAction::AskFirst(request),
        !(request is EditFile) && mode == ToolApproval::Deny ==> a matches ToolAction::Refuse(
            ToolError::Denied,
        ),
        request is EditFile ==> a is AwaitApproval,
{
    match request {
        ToolRequest::EditFile { path, content } => ToolAction::AwaitApproval { path, after: content },
        _ => match mode {
            ToolApproval::Allow => ToolAction::Run(request),
            ToolApproval::Ask => ToolAction::AskFirst(request),
            ToolApproval::Deny => ToolAction::Refuse(ToolError::Denied),
        },
    }
}

/// What follows the user's answer about a request that waited: yes runs it
/// (an edit is written), no runs nothing and gives the refusal to report.
pub fn answer(request: ToolRequest, approved: bool) -> (r: Result<ToolRequest, ToolError>)
    ensures
        approved ==> r == Ok::<ToolRequest, ToolError>(request),
        !approved ==> r matches Err(ToolError::Rejected),
{
    if approved {
        Ok(request)
    } else {
        Err(ToolError::Rejected)
    }
}

/// What a successful edit reports: `"wrote "` and the path.
pub fn edit_confirmation(path: &str) -> (r: String)
    ensures
        r@ == "wrote "@ + path@,
{
    let mut r = String::from_str("wrote ");
    r.append(path);
    r
}

/// What a shell call reports: its standard output followed by its standard
/// error.
pub fn shell_report(stdout: String, stderr: &str) -> (r: String)
    ensures
        r@ == stdout@ + stderr@,
{
    let mut r = stdout;
    r.append(stderr);
    r
}

/// A parameter of a tool: a required string.
pub struct ToolParam {
    pub name: &'static str,
    pub description: &'static str,
}

/// A tool as the model is told of it.
pub struct ToolSchema {
    pub name: &'static str,
    pub description: &'static str,
    pub params: Vec<ToolParam>,
}

/// The tools offered with every request: `read_file`, `edit_file` and
/// `shell`, in that order, with their parameters.
pub fn tool_schemas() -> (r: Vec<ToolSchema>)
    ensures
        r@.len() == 3,
        r@[0].name@ == "read_file"@,
        r@[1].name@ == "edit_file"@,
        r@[2].name@ == "shell"@,
        r@[0].params@.len() == 1 && r@[0].params@[0].name@ == "path"@,
        r@[1].params@.len() == 2 && r@[1].params@[0].name@ == "path"@ && r@[1].params@[1].name@
            == "content"@,
        r@[2].params@.len() == 1 && r@[2].params@[0].name@ == "command"@,
        r@[0].description@ == "Read a file from disk and return its full contents."@,
        r@[1].description@ == "Write content to a file, creating or replacing it entirely."@,
        r@[2].description@
            == "Run a shell command in the working directory. Returns stdout and stderr combined."@,
        r@[0].params@[0].description@ == "Path relative to the working directory"@,
        r@[1].params@[0].description@ == "Path relative to the working directory"@,
        r@[1].params@[1].description@ == "Full content to write"@,
        r@[2].params@[0].description@ == "Shell command to execute"@,
{
    let mut read_params: Vec<ToolParam> = Vec::new();
    read_params.push(
        ToolParam { name: "path", description: "Path relative to the working directory" },
    );
    let mut edit_params: Vec<ToolParam> = Vec::new();
    edit_params.push(
        ToolParam { name: "path", description: "Path relative to the working directory" },
    );
    edit_params.push(ToolParam { name: "content", description: "Full content to write" });
    let mut shell_params: Vec<ToolParam> = Vec::new();
    shell_params.push(ToolParam { name: "command", description: "Shell command to execute" });
    let mut r: Vec<ToolSchema> = Vec::new();
    r.push(
        ToolSchema {
            name: "read_file",
            description: "Read a file from disk and return its full contents.",
            params: read_params,
        },
    );
    r.push(
        ToolSchema {
            name: "edit_file",
            description: "Write content to a file, creating or replacing it entirely.",
            params: edit_params,
        },
    );
    r.push(
        ToolSchema {
            name: "shell",
            description: "Run a shell command in the working directory. Returns stdout and stderr combined.",
            params: shell_params,
        },
    );
    r
}

} // verus!
