//! The agent loop: stream a reply, run the tools it asks for, feed the
//! results back, and stop when the model asks for nothing more, something
//! fails, the user cancels, or the turn limit is reached.
use vstd::prelude::*;

use crate::event::AppEvent;

verus! {

/// How many replies one run may stream at most.
pub const MAX_TURNS: usize = 10;

/// A tool call the model made, as the loop keeps it.
pub struct ToolCallRecord {
    pub id: String,
    pub name: String,
    pub args: String,
}

impl ToolCallRecord {
    pub fn clone_record(&self) -> (r: ToolCallRecord)
        ensures
            r.id@ == self.id@,
            r.name@ == self.name@,
            r.args@ == self.args@,
    {
        ToolCallRecord { id: self.id.clone(), name: self.name.clone(), args: self.args.clone() }
    }
}

/// Copies of the records, field by field.
pub fn clone_records(v: &Vec<ToolCallRecord>) -> (r: Vec<ToolCallRecord>)
    ensures
        r@.len() == v@.len(),
        forall|i: int|
            0 <= i < v@.len() ==> #[trigger] r@[i].id@ == v@[i].id@ && r@[i].name@ == v@[i].name@
                && r@[i].args@ == v@[i].args@,
{
    let mut r: Vec<ToolCallRecord> = Vec::new();
    let mut i: usize = 0;
    while i < v.len()
        invariant
            i <= v@.len(),
            r@.len() == i,
            forall|j: int|
                0 <= j < i ==> #[trigger] r@[j].id@ == v@[j].id@ && r@[j].name@ == v@[j].name@
                    && r@[j].args@ == v@[j].args@,
        decreases v@.len() - i,
    {
        r.push(v[i].clone_record());
        i = i + 1;
    }
    r
}

/// What one streamed turn has collected: the tool calls seen, in order.
pub struct TurnCollector {
    pub calls: Vec<ToolCallRecord>,
}

impl TurnCollector {
    pub fn new() -> (r: Self)
        ensures
            r.calls@.len() == 0,
    {
        TurnCollector { calls: Vec::new() }
    }

    /// Looks at one event of the turn's stream: a token is passed on, a tool
    /// call is remembered and passed on, anything else is dropped.
    pub fn observe(&mut self, event: AppEvent) -> (forward: Option<AppEvent>)
        ensures
            match event {
                AppEvent::Token(_) => forward == Some(event) && final(self).calls@ == old(
                    self,
                ).calls@,
                AppEvent::ToolCall { id, name, args } => {
                    &&& forward == Some(event)
                    &&& final(self).calls@.len() == old(self).calls@.len() + 1
                    &&& final(self).calls@.drop_last() == old(self).calls@
                    &&& final(self).calls@.last().id@ == id@
                    &&& final(self).calls@.last().name@ == name@
                    &&& final(self).calls@.last().args@ == args@
                },
                _ => forward is None && final(self).calls@ == old(self).calls@,
            },
    {
        match event {
            AppEvent::Token(t) => Some(AppEvent::Token(t)),
            AppEvent::ToolCall { id, name, args } => {
                let rec = ToolCallRecord { id: id.clone(), name: name.clone(), args: args.clone() };
                self.calls.push(rec);
                assert(self.calls@.drop_last() =~= old(self).calls@);
                Some(AppEvent::ToolCall { id, name, args })
            },
            _ => None,
        }
    }
}

/// A message of the conversation the model is shown.
pub enum HistoryMessage {
    /// What the user asked.
    User(String),
    /// What the agent answered.
    Assistant(String),
    /// The model's turn that asked for these tool calls.
    AssistantToolCalls(Vec<ToolCallRecord>),
    /// What the tool call with this id gave back.
    Tool { call_id: String, content: String },
}

/// The spoken part of a history: each user (`true`) or agent (`false`)
/// message with its text, in order.
pub open spec fn said(h: Seq<HistoryMessage>) -> Seq<(bool, Seq<char>)>
    decreases h.len(),
{
    if h.len() == 0 {
        Seq::empty()
    } else {
        said(h.drop_last()) + match h.last() {
            HistoryMessage::User(t) => seq![(true, t@)],
            HistoryMessage::Assistant(t) => seq![(false, t@)],
            _ => Seq::empty(),
        }
    }
}

/// How a streamed turn ended.
pub enum TurnOutcome {
    /// The user cancelled while the reply streamed.
    Cancelled,
    /// The stream failed.
    Failed,
    /// The stream ended; these are the tool calls it carried.
    Completed(Vec<ToolCallRecord>),
}

/// What the loop does after a turn.
pub enum NextStep {
    /// Stop: the run is to `finish` and report `Done`.
    Finish,
    /// Run these tool calls, in order, and report each result.
    RunTools(Vec<ToolCallRecord>),
}

/// The state of one agent run.
///
/// A run ends with exactly one `Done`: `finish` gives it, can be called only
/// once, and no step may follow it.
pub struct AgentRun {
    history: Vec<HistoryMessage>,
    turns: usize,
    finished: bool,
}

impl AgentRun {
    /// How many replies have been streamed.
    pub closed spec fn turns(self) -> nat {
        self.turns as nat
    }

    /// The conversation so far.
    pub closed spec fn messages(self) -> Seq<HistoryMessage> {
        self.history@
    }

    /// Whether the run has reported `Done`.
    pub closed spec fn is_finished(self) -> bool {
        self.finished
    }

    pub open spec fn wf(self) -> bool {
        self.turns() <= MAX_TURNS
    }

    pub fn history(&self) -> (r: &Vec<HistoryMessage>)
        ensures
            r@ == self.messages(),
    {
        &self.history
    }

    pub fn new(history: Vec<HistoryMessage>) -> (r: Self)
        ensures
            r.wf(),
            r.turns() == 0,
            !r.is_finished(),
            r.messages() == history@,
    {
        AgentRun { history, turns: 0, finished: false }
    }

    /// Starts the next turn when the turn limit allows one, counting it; at
    /// the limit it starts none, and the run is to finish.
    pub fn begin_turn(&mut self) -> (started: bool)
        requires
            old(self).wf(),
            !old(self).is_finished(),
        ensures
            final(self).wf(),
            !final(self).is_finished(),
            started == (old(self).turns() < MAX_TURNS),
            final(self).turns() == if started {
                old(self).turns() + 1
            } else {
                old(self).turns()
            },
            final(self).messages() == old(self).messages(),
    {
        if self.turns < MAX_TURNS {
            self.turns = self.turns + 1;
            true
        } else {
            false
        }
    }

    /// Ends the run: the event that reports it.
    pub fn finish(&mut self) -> (done: AppEvent)
        requires
            !old(self).is_finished(),
        ensures
            final(self).is_finished(),
            done is Done,
            final(self).turns() == old(self).turns(),
            final(self).messages() == old(self).messages(),
    {
        self.finished = true;
        AppEvent::Done
    }

    /// Decides what follows a turn: a cancelled or failed turn, or one that
    /// asked for no tool, ends the run; otherwise the turn's tool calls join
    /// the history and are to be run.
    pub fn end_turn(&mut self, outcome: TurnOutcome) -> (step: NextStep)
        requires
            !old(self).is_finished(),
        ensures
            !final(self).is_finished(),
            final(self).turns() == old(self).turns(),
            match outcome {
                TurnOutcome::Completed(calls) => if calls@.len() == 0 {
                    step is Finish && final(self).messages() == old(self).messages()
                } else {
                    &&& step matches NextStep::RunTools(run) && run@ == calls@
                    &&& final(self).messages().len() == old(self).messages().len() + 1
                    &&& final(self).messages().drop_last() == old(self).messages()
                    &&& final(self).messages().last() matches HistoryMessage::AssistantToolCalls(h)
                        && h@.len() == calls@.len() && forall|i: int|
                        0 <= i < calls@.len() ==> #[trigger] h@[i].id@ == calls@[i].id@
                            && h@[i].name@ == calls@[i].name@ && h@[i].args@ == calls@[i].args@
                },
                _ => step is Finish && final(self).messages() == old(self).messages(),
            },
    {
        match outcome {
            TurnOutcome::Completed(calls) => {
                if calls.len() == 0 {
                    NextStep::Finish
                } else {
                    let copy = clone_records(&calls);
                    self.history.push(HistoryMessage::AssistantToolCalls(copy));
                    assert(self.history@.drop_last() =~= old(self).messages());
                    NextStep::RunTools(calls)
                }
            },
            _ => NextStep::Finish,
        }
    }

    /// Adds what a tool call gave back to the history.
    pub fn record_tool_result(&mut self, call_id: String, content: String)
        requires
            !old(self).is_finished(),
        ensures
            !final(self).is_finished(),
            final(self).turns() == old(self).turns(),
            final(self).messages() == old(self).messages().push(
                HistoryMessage::Tool { call_id, content },
            ),
    {
        self.history.push(HistoryMessage::Tool { call_id, content });
    }
}

/// The text a tool call's result is reported with: its output, or
/// `"error: "` and the error.
pub open spec fn tool_result_text(result: Result<Seq<char>, Seq<char>>) -> Seq<char> {
    match result {
        Ok(s) => s,
        Err(e) => "error: "@ + e,
    }
}

pub fn tool_result_content(result: Result<String, String>) -> (r: String)
    ensures
        r@ == tool_result_text(
            match result {
                Ok(s) => Ok(s@),
                Err(e) => Err(e@),
            },
        ),
{
    match result {
        Ok(s) => s,
        Err(e) => {
            let mut r = String::from_str("error: ");
            r.append(e.as_str());
            r
        },
    }
}

} // verus!
