//! The interface's state and how it answers keys and inference events.
//!
//! Each handler changes the state and returns what the terminal has to show
//! or do; drawing, the reply channel of an edit and starting inference are
//! the caller's.
use vstd::prelude::*;

use crate::config::Config;
use crate::event::AppEvent;
use crate::inference::{HistoryMessage, said};
use crate::text::{pop_char, push_char, trim, trim_of};

verus! {

/// An entry of the conversation, kept for inference context.
#[derive(Debug)]
pub enum ChatMessage {
    User(String),
    Agent(String),
    /// A tool call; `args` is its arguments as compact JSON.
    ToolCall { name: String, args: String },
    ToolResult { name: String, content: String },
}

/// An edit waiting for the user's approval.
#[derive(Debug)]
pub struct PendingDiff {
    pub path: String,
    pub before: String,
    pub after: String,
}

/// A tool call waiting for the user's yes or no.
#[derive(Debug)]
pub struct PendingTool {
    pub name: String,
    /// Its arguments as compact JSON.
    pub args: String,
}

/// A key as the interface tells keys apart.
#[derive(Clone, Copy, Debug, PartialEq, Eq, Structural)]
pub enum KeyCode {
    Char(char),
    Enter,
    Backspace,
    Up,
    Other,
}

/// The modifiers held with a key, as the interface tells them apart.
#[derive(Clone, Copy, Debug, PartialEq, Eq, Structural)]
pub enum Modifiers {
    /// No modifier.
    Plain,
    /// Control alone.
    Control,
    /// Shift alone.
    Shift,
    /// Any other combination.
    Other,
}

/// A key press.
#[derive(Clone, Copy, Debug, PartialEq, Eq, Structural)]
pub struct Key {
    pub code: KeyCode,
    pub modifiers: Modifiers,
}

/// What the terminal has to do after a key.
#[derive(Debug)]
pub enum KeyOutcome {
    /// Nothing.
    Ignored,
    /// Redraw the live area.
    Redraw,
    /// The user asked to quit.
    Quit,
    /// The pending edit was accepted: show it in compact form in the history
    /// and tell the inference side yes.
    Approved(PendingDiff),
    /// The pending tool call was allowed: tell the inference side yes.
    ToolAllowed,
    /// The pending edit or tool call was rejected: tell the inference side
    /// no.
    Rejected,
    /// The user sent this message: show it and start inference on it.
    Submitted(String),
}

/// What the terminal has to do after an inference event.
#[derive(Debug)]
pub enum EventOutcome {
    /// Redraw the live area.
    Redraw,
    /// Commit the streamed agent text (when not empty), then the tool call.
    CommitToolCall { agent_text: String, name: String, args: String },
    /// Commit the tool result.
    CommitToolResult { name: String, content: String },
    /// Commit the streamed agent text (when not empty), then show the pending
    /// edit for approval.
    ShowDiff { agent_text: String },
    /// Commit the streamed agent text (when not empty), then ask whether the
    /// pending tool call may run.
    ShowToolPrompt { agent_text: String },
    /// The run is over: commit the agent text, if any, and stop listening.
    Finished { reply: Option<String> },
}

/// The interface's state.
pub struct App {
    pub running: bool,
    pub config: Config,
    pub input: String,
    /// Kept for inference context.
    pub messages: Vec<ChatMessage>,
    /// Agent tokens accumulating in the current streaming turn.
    pub streaming_text: String,
    /// Lines above the input row in the live area, to find its top again.
    pub live_lines_to_top: u16,
    /// An edit waiting for approval; while set, keys other than the answer
    /// and quitting are swallowed.
    pub pending_diff: Option<PendingDiff>,
    /// A tool call waiting for the user's answer; while set, keys other than
    /// the answer and quitting are swallowed.
    pub pending_tool: Option<PendingTool>,
}

/// Whether the key quits: `q` or `c` with Control alone.
pub open spec fn is_quit(key: Key) -> bool {
    key.modifiers == Modifiers::Control && (key.code == KeyCode::Char('q') || key.code
        == KeyCode::Char('c'))
}

/// Whether the key starts a new input line: Shift+Enter, or Ctrl+J, the
/// line feed that many terminals send for it.
pub open spec fn is_newline_key(key: Key) -> bool {
    (key.code == KeyCode::Enter && key.modifiers == Modifiers::Shift) || (key.code
        == KeyCode::Char('j') && key.modifiers == Modifiers::Control)
}

/// The input after a key outside approval mode (submitting aside).
pub open spec fn input_after_key(input: Seq<char>, key: Key) -> Seq<char> {
    if is_quit(key) {
        input
    } else if is_newline_key(key) {
        input.push('\n')
    } else {
        match key.code {
            KeyCode::Backspace => if input.len() > 0 {
                input.drop_last()
            } else {
                input
            },
            KeyCode::Char(c) => input.push(c),
            _ => input,
        }
    }
}

/// What the user said (`true`) and what the agent answered (`false`) in a
/// conversation, in order; tool calls and results are not part of it.
pub open spec fn spoken(msgs: Seq<ChatMessage>) -> Seq<(bool, Seq<char>)>
    decreases msgs.len(),
{
    if msgs.len() == 0 {
        Seq::empty()
    } else {
        spoken(msgs.drop_last()) + match msgs.last() {
            ChatMessage::User(t) => seq![(true, t@)],
            ChatMessage::Agent(t) => seq![(false, t@)],
            _ => Seq::empty(),
        }
    }
}

/// Typing a character and then Backspace leaves the input as it was.
pub proof fn lemma_type_then_erase(input: Seq<char>, key: Key)
    requires
        key.code matches KeyCode::Char(_),
        !is_quit(key),
        !is_newline_key(key),
    ensures
        input_after_key(input_after_key(input, key), Key { code: KeyCode::Backspace, modifiers: key.modifiers })
            == input,
{
    assert(input_after_key(input, key).drop_last() =~= input);
}

impl App {
    pub fn new(config: Config) -> (r: Self)
        ensures
            r.running,
            r.config == config,
            r.input@.len() == 0,
            r.messages@.len() == 0,
            r.streaming_text@.len() == 0,
            r.live_lines_to_top == 1,
            r.pending_diff is None,
            r.pending_tool is None,
    {
        App {
            running: true,
            config,
            input: String::new(),
            messages: Vec::new(),
            streaming_text: String::new(),
            live_lines_to_top: 1,
            pending_diff: None,
            pending_tool: None,
        }
    }

    /// The history the model is shown for the next run: the user's messages
    /// and the agent's answers so far, in order. Tool calls and results of
    /// earlier runs are left out, since the messages keep no call ids and a
    /// tool result must name the call it answers.
    pub fn conversation(&self) -> (h: Vec<HistoryMessage>)
        ensures
            said(h@) == spoken(self.messages@),
            forall|i: int|
                0 <= i < h@.len() ==> (#[trigger] h@[i] is User || h@[i] is Assistant),
    {
        let mut h: Vec<HistoryMessage> = Vec::new();
        let mut i: usize = 0;
        while i < self.messages.len()
            invariant
                i <= self.messages@.len(),
                said(h@) == spoken(self.messages@.take(i as int)),
                forall|j: int| 0 <= j < h@.len() ==> (#[trigger] h@[j] is User || h@[j] is Assistant),
            decreases self.messages@.len() - i,
        {
            let ghost before = h@;
            assert(self.messages@.take(i + 1).drop_last() =~= self.messages@.take(i as int));
            match &self.messages[i] {
                ChatMessage::User(t) => {
                    h.push(HistoryMessage::User(t.clone()));
                    assert(h@.drop_last() =~= before);
                },
                ChatMessage::Agent(t) => {
                    h.push(HistoryMessage::Assistant(t.clone()));
                    assert(h@.drop_last() =~= before);
                },
                _ => {
                    assert(spoken(self.messages@.take(i + 1)) =~= spoken(self.messages@.take(i as int)));
                },
            }
            i = i + 1;
        }
        assert(self.messages@.take(self.messages@.len() as int) =~= self.messages@);
        h
    }

    /// Answers a key.
    ///
    /// While an edit waits: `y`/`Y` accepts it and records it as an edit tool
    /// call, `n`/`N` rejects it, Ctrl+Q/Ctrl+C quits, and every other key is
    /// swallowed. While only a tool call waits: `y`/`Y` allows it, `n`/`N`
    /// rejects it, Ctrl+Q/Ctrl+C quits, and every other key is swallowed.
    /// Otherwise: Ctrl+Q/Ctrl+C quits, Shift+Enter or Ctrl+J adds a
    /// line break, Enter sends the trimmed input when it is not empty,
    /// Backspace erases the last character, Up is left to the terminal's
    /// scrollback, and other characters are typed.
    pub fn handle_key(&mut self, key: Key) -> (out: KeyOutcome)
        ensures
            final(self).config == old(self).config,
            final(self).streaming_text == old(self).streaming_text,
            final(self).live_lines_to_top == old(self).live_lines_to_top,
            old(self).pending_diff is Some ==> {
                &&& final(self).input == old(self).input
                &&& final(self).pending_tool == old(self).pending_tool
                &&& if key.code == KeyCode::Char('y') || key.code == KeyCode::Char('Y') {
                    &&& out matches KeyOutcome::Approved(pd) && pd == old(self).pending_diff->0
                    &&& final(self).pending_diff is None
                    &&& final(self).running == old(self).running
                    &&& final(self).messages@.len() == old(self).messages@.len() + 1
                    &&& final(self).messages@.drop_last() == old(self).messages@
                    &&& final(self).messages@.last() matches ChatMessage::ToolCall { name, args }
                        && name@ == "edit "@ + old(self).pending_diff->0.path@ && args@ == "null"@
                } else if key.code == KeyCode::Char('n') || key.code == KeyCode::Char('N') {
                    &&& out is Rejected
                    &&& final(self).pending_diff is None
                    &&& final(self).running == old(self).running
                    &&& final(self).messages == old(self).messages
                } else if is_quit(key) {
                    &&& out is Quit
                    &&& !final(self).running
                    &&& final(self).pending_diff == old(self).pending_diff
                    &&& final(self).messages == old(self).messages
                } else {
                    &&& out is Ignored
                    &&& final(self).running == old(self).running
                    &&& final(self).pending_diff == old(self).pending_diff
                    &&& final(self).messages == old(self).messages
                }
            },
            old(self).pending_diff is None && old(self).pending_tool is Some ==> {
                &&& final(self).input == old(self).input
                &&& final(self).messages == old(self).messages
                &&& final(self).pending_diff is None
                &&& if key.code == KeyCode::Char('y') || key.code == KeyCode::Char('Y') {
                    &&& out is ToolAllowed
                    &&& final(self).pending_tool is None
                    &&& final(self).running == old(self).running
                } else if key.code == KeyCode::Char('n') || key.code == KeyCode::Char('N') {
                    &&& out is Rejected
                    &&& final(self).pending_tool is None
                    &&& final(self).running == old(self).running
                } else if is_quit(key) {
                    &&& out is Quit
                    &&& !final(self).running
                    &&& final(self).pending_tool == old(self).pending_tool
                } else {
                    &&& out is Ignored
                    &&& final(self).running == old(self).running
                    &&& final(self).pending_tool == old(self).pending_tool
                }
            },
            old(self).pending_diff is None && old(self).pending_tool is None ==> {
                &&& final(self).pending_diff is None
                &&& final(self).pending_tool is None
                &&& if is_quit(key) {
                    &&& out is Quit
                    &&& !final(self).running
                    &&& final(self).input == old(self).input
                    &&& final(self).messages == old(self).messages
                } else if !is_newline_key(key) && key.code == KeyCode::Enter {
                    &&& final(self).running == old(self).running
                    &&& if trim_of(old(self).input@).len() == 0 {
                        &&& out is Ignored
                        &&& final(self).input == old(self).input
                        &&& final(self).messages == old(self).messages
                    } else {
                        &&& out matches KeyOutcome::Submitted(t) && t@ == trim_of(
                            old(self).input@,
                        )
                        &&& final(self).input@.len() == 0
                        &&& final(self).messages@.len() == old(self).messages@.len() + 1
                        &&& final(self).messages@.drop_last() == old(self).messages@
                        &&& final(self).messages@.last() matches ChatMessage::User(m) && m@
                            == trim_of(old(self).input@)
                    }
                } else {
                    &&& final(self).running == old(self).running
                    &&& final(self).messages == old(self).messages
                    &&& final(self).input@ == input_after_key(old(self).input@, key)
                    &&& if final(self).input@ == old(self).input@ && !(key.code
                        == KeyCode::Backspace) && !(key.code matches KeyCode::Char(_))
                        && !is_newline_key(key) {
                        out is Ignored
                    } else {
                        out is Redraw
                    }
                }
            },
    {
        let quit = key.modifiers == Modifiers::Control && (key.code == KeyCode::Char('q')
            || key.code == KeyCode::Char('c'));
        if self.pending_diff.is_some() {
            if key.code == KeyCode::Char('y') || key.code == KeyCode::Char('Y') {
                let mut taken: Option<PendingDiff> = None;
                std::mem::swap(&mut taken, &mut self.pending_diff);
                match taken {
                    Some(pd) => {
                        let mut name = String::from_str("edit ");
                        name.append(pd.path.as_str());
                        self.messages.push(
                            ChatMessage::ToolCall { name, args: String::from_str("null") },
                        );
                        assert(self.messages@.drop_last() =~= old(self).messages@);
                        KeyOutcome::Approved(pd)
                    },
                    None => KeyOutcome::Ignored,
                }
            } else if key.code == KeyCode::Char('n') || key.code == KeyCode::Char('N') {
                self.pending_diff = None;
                KeyOutcome::Rejected
            } else if quit {
                self.running = false;
                KeyOutcome::Quit
            } else {
                KeyOutcome::Ignored
            }
        } else if self.pending_tool.is_some() {
            if key.code == KeyCode::Char('y') || key.code == KeyCode::Char('Y') {
                self.pending_tool = None;
                KeyOutcome::ToolAllowed
            } else if key.code == KeyCode::Char('n') || key.code == KeyCode::Char('N') {
                self.pending_tool = None;
                KeyOutcome::Rejected
            } else if quit {
                self.running = false;
                KeyOutcome::Quit
            } else {
                KeyOutcome::Ignored
            }
        } else if quit {
            self.running = false;
            KeyOutcome::Quit
        } else if (key.code == KeyCode::Enter && key.modifiers == Modifiers::Shift) || (key.code
            == KeyCode::Char('j') && key.modifiers == Modifiers::Control) {
            push_char(&mut self.input, '\n');
            KeyOutcome::Redraw
        } else {
            match key.code {
                KeyCode::Enter => self.submit(),
                KeyCode::Backspace => {
                    pop_char(&mut self.input);
                    KeyOutcome::Redraw
                },
                KeyCode::Char(c) => {
                    push_char(&mut self.input, c);
                    KeyOutcome::Redraw
                },
                _ => KeyOutcome::Ignored,
            }
        }
    }

    /// Sends the input: nothing happens when it is blank; otherwise the
    /// trimmed text becomes a user message and the input is cleared.
    fn submit(&mut self) -> (out: KeyOutcome)
        ensures
            final(self).config == old(self).config,
            final(self).streaming_text == old(self).streaming_text,
            final(self).live_lines_to_top == old(self).live_lines_to_top,
            final(self).pending_diff == old(self).pending_diff,
            final(self).pending_tool == old(self).pending_tool,
            final(self).running == old(self).running,
            if trim_of(old(self).input@).len() == 0 {
                &&& out is Ignored
                &&& final(self).input == old(self).input
                &&& final(self).messages == old(self).messages
            } else {
                &&& out matches KeyOutcome::Submitted(t) && t@ == trim_of(old(self).input@)
                &&& final(self).input@.len() == 0
                &&& final(self).messages@.len() == old(self).messages@.len() + 1
                &&& final(self).messages@.drop_last() == old(self).messages@
                &&& final(self).messages@.last() matches ChatMessage::User(m) && m@ == trim_of(
                    old(self).input@,
                )
            },
    {
        let text = trim(self.input.as_str());
        if text.as_str().is_empty() {
            return KeyOutcome::Ignored;
        }
        self.input = String::new();
        self.messages.push(ChatMessage::User(text.clone()));
        assert(self.messages@.drop_last() =~= old(self).messages@);
        KeyOutcome::Submitted(text)
    }

    /// Answers an inference event.
    ///
    /// Tokens accumulate in the streaming text. A tool call commits the text
    /// streamed so far and is recorded; so is a tool result. A file diff
    /// commits the streamed text and waits for approval. `Done` turns the
    /// streamed text, when there is any, into an agent message. A tool prompt
    /// commits the streamed text and waits for the user's answer.
    pub fn apply_event(&mut self, event: AppEvent) -> (out: EventOutcome)
        ensures
            !(event is ToolPrompt) ==> final(self).pending_tool == old(self).pending_tool,
            final(self).config == old(self).config,
            final(self).input == old(self).input,
            final(self).running == old(self).running,
            final(self).live_lines_to_top == old(self).live_lines_to_top,
            match event {
                AppEvent::Token(d) => {
                    &&& out is Redraw
                    &&& final(self).streaming_text@ == old(self).streaming_text@ + d@
                    &&& final(self).messages == old(self).messages
                    &&& final(self).pending_diff == old(self).pending_diff
                },
                AppEvent::ToolCall { id, name, args } => {
                    &&& out matches EventOutcome::CommitToolCall { agent_text, name: n, args: a }
                        && agent_text@ == old(self).streaming_text@ && n@ == name@ && a@
                        == args@
                    &&& final(self).streaming_text@.len() == 0
                    &&& final(self).messages@.len() == old(self).messages@.len() + 1
                    &&& final(self).messages@.drop_last() == old(self).messages@
                    &&& final(self).messages@.last() matches ChatMessage::ToolCall {
                        name: n,
                        args: a,
                    } && n@ == name@ && a@ == args@
                    &&& final(self).pending_diff == old(self).pending_diff
                },
                AppEvent::ToolResult { name, content } => {
                    &&& out matches EventOutcome::CommitToolResult { name: n, content: c } && n@
                        == name@ && c@ == content@
                    &&& final(self).streaming_text == old(self).streaming_text
                    &&& final(self).messages@.len() == old(self).messages@.len() + 1
                    &&& final(self).messages@.drop_last() == old(self).messages@
                    &&& final(self).messages@.last() matches ChatMessage::ToolResult {
                        name: n,
                        content: c,
                    } && n@ == name@ && c@ == content@
                    &&& final(self).pending_diff == old(self).pending_diff
                },
                AppEvent::FileDiff { path, before, after, awaits_approval } => {
                    &&& out matches EventOutcome::ShowDiff { agent_text } && agent_text@ == old(
                        self,
                    ).streaming_text@
                    &&& final(self).streaming_text@.len() == 0
                    &&& final(self).messages == old(self).messages
                    &&& final(self).pending_diff == Some(PendingDiff { path, before, after })
                },
                AppEvent::ToolPrompt { name, args } => {
                    &&& out matches EventOutcome::ShowToolPrompt { agent_text } && agent_text@
                        == old(self).streaming_text@
                    &&& final(self).streaming_text@.len() == 0
                    &&& final(self).messages == old(self).messages
                    &&& final(self).pending_diff == old(self).pending_diff
                    &&& final(self).pending_tool == Some(PendingTool { name, args })
                },
                AppEvent::Done => {
                    &&& final(self).streaming_text@.len() == 0
                    &&& final(self).pending_diff == old(self).pending_diff
                    &&& if old(self).streaming_text@.len() == 0 {
                        &&& out matches EventOutcome::Finished { reply: None }
                        &&& final(self).messages == old(self).messages
                    } else {
                        &&& out matches EventOutcome::Finished { reply: Some(t) } && t@ == old(
                            self,
                        ).streaming_text@
                        &&& final(self).messages@.len() == old(self).messages@.len() + 1
                        &&& final(self).messages@.drop_last() == old(self).messages@
                        &&& final(self).messages@.last() matches ChatMessage::Agent(m) && m@
                            == old(self).streaming_text@
                    }
                },
            },
    {
        match event {
            AppEvent::Token(d) => {
                self.streaming_text.append(d.as_str());
                EventOutcome::Redraw
            },
            AppEvent::ToolCall { id: _, name, args } => {
                let agent_text = self.take_streaming();
                self.messages.push(ChatMessage::ToolCall { name: name.clone(), args: args.clone() });
                assert(self.messages@.drop_last() =~= old(self).messages@);
                EventOutcome::CommitToolCall { agent_text, name, args }
            },
            AppEvent::ToolResult { name, content } => {
                self.messages.push(
                    ChatMessage::ToolResult { name: name.clone(), content: content.clone() },
                );
                assert(self.messages@.drop_last() =~= old(self).messages@);
                EventOutcome::CommitToolResult { name, content }
            },
            AppEvent::FileDiff { path, before, after, awaits_approval: _ } => {
                let agent_text = self.take_streaming();
                self.pending_diff = Some(PendingDiff { path, before, after });
                EventOutcome::ShowDiff { agent_text }
            },
            AppEvent::ToolPrompt { name, args } => {
                let agent_text = self.take_streaming();
                self.pending_tool = Some(PendingTool { name, args });
                EventOutcome::ShowToolPrompt { agent_text }
            },
            AppEvent::Done => {
                if self.streaming_text.as_str().is_empty() {
                    EventOutcome::Finished { reply: None }
                } else {
                    let text = self.take_streaming();
                    self.messages.push(ChatMessage::Agent(text.clone()));
                    assert(self.messages@.drop_last() =~= old(self).messages@);
                    EventOutcome::Finished { reply: Some(text) }
                }
            },
        }
    }

    /// Takes the streamed text, leaving it empty.
    fn take_streaming(&mut self) -> (t: String)
        ensures
            t@ == old(self).streaming_text@,
            final(self).streaming_text@.len() == 0,
            final(self).config == old(self).config,
            final(self).input == old(self).input,
            final(self).running == old(self).running,
            final(self).live_lines_to_top == old(self).live_lines_to_top,
            final(self).messages == old(self).messages,
            final(self).pending_diff == old(self).pending_diff,
            final(self).pending_tool == old(self).pending_tool,
    {
        let mut t = String::new();
        std::mem::swap(&mut t, &mut self.streaming_text);
        t
    }
}

} // verus!
