use vstd::prelude::*;

verus! {

/// What the inference side reports to the interface, in order.
///
/// Tool-call arguments travel as JSON text in compact form.
#[derive(Debug)]
pub enum AppEvent {
    /// A piece of the agent's reply.
    Token(String),
    /// A tool call the model asked for.
    ToolCall { id: String, name: String, args: String },
    /// What a tool call gave back.
    ToolResult { name: String, content: String },
    /// An edit waiting to be shown; when `awaits_approval` holds, the
    /// inference side waits for the user's decision.
    FileDiff { path: String, before: String, after: String, awaits_approval: bool },
    /// A tool call that waits for the user's yes or no before it runs;
    /// `args` is its arguments as compact JSON.
    ToolPrompt { name: String, args: String },
    /// The end of the inference run.
    Done,
}

/// When two events count as equal: same variant and same fields, except that
/// a file diff or a tool prompt, which carry a reply channel, equal nothing.
pub open spec fn events_equal(a: AppEvent, b: AppEvent) -> bool {
    match (a, b) {
        (AppEvent::Token(x), AppEvent::Token(y)) => x@ == y@,
        (
            AppEvent::ToolCall { id: i1, name: n1, args: a1 },
            AppEvent::ToolCall { id: i2, name: n2, args: a2 },
        ) => i1@ == i2@ && n1@ == n2@ && a1@ == a2@,
        (
            AppEvent::ToolResult { name: n1, content: c1 },
            AppEvent::ToolResult { name: n2, content: c2 },
        ) => n1@ == n2@ && c1@ == c2@,
        (AppEvent::Done, AppEvent::Done) => true,
        _ => false,
    }
}

impl PartialEq for AppEvent {
    fn eq(&self, other: &Self) -> (r: bool) {
        match (self, other) {
            (AppEvent::Token(a), AppEvent::Token(b)) => a.eq(b),
            (
                AppEvent::ToolCall { id: a, name: b, args: c },
                AppEvent::ToolCall { id: d, name: e, args: f },
            ) => a.eq(d) && b.eq(e) && c.eq(f),
            (
                AppEvent::ToolResult { name: a, content: b },
                AppEvent::ToolResult { name: c, content: d },
            ) => a.eq(c) && b.eq(d),
            (AppEvent::Done, AppEvent::Done) => true,
            _ => false,
        }
    }
}

impl vstd::std_specs::cmp::PartialEqSpecImpl for AppEvent {
    open spec fn obeys_eq_spec() -> bool {
        true
    }

    open spec fn eq_spec(&self, other: &AppEvent) -> bool {
        events_equal(*self, *other)
    }
}

/// The event for a tool call, as `ToolCall` with the given id and name.
pub open spec fn is_tool_call(e: AppEvent, id: Seq<char>, name: Seq<char>, args: Seq<char>) -> bool {
    e matches AppEvent::ToolCall { id: i, name: n, args: a } && i@ == id && n@ == name && a@ == args
}

} // verus!
