use axon::app::{
    App, ChatMessage, EventOutcome, Key, KeyCode, KeyOutcome, Modifiers, PendingDiff, PendingTool,
};
use axon::inference::HistoryMessage;
use axon::config::{BackendConfig, Config};
use axon::event::AppEvent;

fn app() -> App {
    App::new(Config::new(BackendConfig::from_settings(None, None, None), None))
}

fn key(code: KeyCode, modifiers: Modifiers) -> Key {
    Key { code, modifiers }
}

fn typed(a: &mut App, s: &str) {
    for c in s.chars() {
        assert!(matches!(a.handle_key(key(KeyCode::Char(c), Modifiers::Plain)), KeyOutcome::Redraw));
    }
}

#[test]
fn new_app_is_idle() {
    let a = app();
    assert!(a.running);
    assert!(a.input.is_empty() && a.messages.is_empty() && a.streaming_text.is_empty());
    assert_eq!(a.live_lines_to_top, 1);
    assert!(a.pending_diff.is_none());
}

#[test]
fn typing_newlines_and_backspace() {
    let mut a = app();
    typed(&mut a, "hi");
    a.handle_key(key(KeyCode::Enter, Modifiers::Shift));
    a.handle_key(key(KeyCode::Char('j'), Modifiers::Control));
    assert_eq!(a.input, "hi\n\n");
    a.handle_key(key(KeyCode::Backspace, Modifiers::Plain));
    assert_eq!(a.input, "hi\n");
    typed(&mut a, "x");
    a.handle_key(key(KeyCode::Backspace, Modifiers::Plain));
    assert_eq!(a.input, "hi\n");
    assert!(matches!(a.handle_key(key(KeyCode::Up, Modifiers::Plain)), KeyOutcome::Ignored));
    assert!(matches!(a.handle_key(key(KeyCode::Other, Modifiers::Plain)), KeyOutcome::Ignored));
}

#[test]
fn submit_trims_and_records() {
    let mut a = app();
    typed(&mut a, "  hello there \t");
    match a.handle_key(key(KeyCode::Enter, Modifiers::Plain)) {
        KeyOutcome::Submitted(t) => assert_eq!(t, "hello there"),
        other => panic!("unexpected {other:?}"),
    }
    assert!(a.input.is_empty());
    assert!(matches!(&a.messages[..], [ChatMessage::User(t)] if t == "hello there"));
}

#[test]
fn blank_submit_is_ignored() {
    let mut a = app();
    typed(&mut a, "   ");
    assert!(matches!(a.handle_key(key(KeyCode::Enter, Modifiers::Plain)), KeyOutcome::Ignored));
    assert_eq!(a.input, "   ");
    assert!(a.messages.is_empty());
}

#[test]
fn control_q_and_c_quit() {
    let mut a = app();
    assert!(matches!(a.handle_key(key(KeyCode::Char('q'), Modifiers::Control)), KeyOutcome::Quit));
    assert!(!a.running);
    let mut b = app();
    b.handle_key(key(KeyCode::Char('c'), Modifiers::Control));
    assert!(!b.running);
    let mut c = app();
    c.handle_key(key(KeyCode::Char('q'), Modifiers::Plain));
    assert!(c.running);
    assert_eq!(c.input, "q");
}

fn with_diff() -> App {
    let mut a = app();
    let out = a.apply_event(AppEvent::FileDiff {
        path: "src/x.rs".into(),
        before: "a".into(),
        after: "b".into(),
        awaits_approval: true,
    });
    assert!(matches!(out, EventOutcome::ShowDiff { .. }));
    a
}

#[test]
fn approval_accepts_with_y() {
    let mut a = with_diff();
    typed_ignored(&mut a, "ab");
    match a.handle_key(key(KeyCode::Char('Y'), Modifiers::Shift)) {
        KeyOutcome::Approved(PendingDiff { path, before, after }) => {
            assert_eq!((path.as_str(), before.as_str(), after.as_str()), ("src/x.rs", "a", "b"))
        }
        other => panic!("unexpected {other:?}"),
    }
    assert!(a.pending_diff.is_none());
    assert!(a.input.is_empty());
    assert!(matches!(&a.messages[..],
        [ChatMessage::ToolCall { name, args }] if name == "edit src/x.rs" && args == "null"));
}

fn typed_ignored(a: &mut App, s: &str) {
    for c in s.chars() {
        assert!(matches!(a.handle_key(key(KeyCode::Char(c), Modifiers::Plain)), KeyOutcome::Ignored));
    }
    assert!(matches!(a.handle_key(key(KeyCode::Enter, Modifiers::Plain)), KeyOutcome::Ignored));
}

#[test]
fn approval_rejects_with_n() {
    let mut a = with_diff();
    assert!(matches!(a.handle_key(key(KeyCode::Char('n'), Modifiers::Plain)), KeyOutcome::Rejected));
    assert!(a.pending_diff.is_none());
    assert!(a.messages.is_empty());
}

#[test]
fn approval_mode_still_quits() {
    let mut a = with_diff();
    assert!(matches!(a.handle_key(key(KeyCode::Char('c'), Modifiers::Control)), KeyOutcome::Quit));
    assert!(!a.running);
    assert!(a.pending_diff.is_some());
}

#[test]
fn tokens_accumulate_until_done() {
    let mut a = app();
    assert!(matches!(a.apply_event(AppEvent::Token("Hel".into())), EventOutcome::Redraw));
    a.apply_event(AppEvent::Token("lo".into()));
    assert_eq!(a.streaming_text, "Hello");
    match a.apply_event(AppEvent::Done) {
        EventOutcome::Finished { reply: Some(t) } => assert_eq!(t, "Hello"),
        other => panic!("unexpected {other:?}"),
    }
    assert!(a.streaming_text.is_empty());
    assert!(matches!(&a.messages[..], [ChatMessage::Agent(t)] if t == "Hello"));
    assert!(matches!(a.apply_event(AppEvent::Done), EventOutcome::Finished { reply: None }));
    assert_eq!(a.messages.len(), 1);
}

#[test]
fn tool_events_are_recorded() {
    let mut a = app();
    a.apply_event(AppEvent::Token("Let me look".into()));
    match a.apply_event(AppEvent::ToolCall {
        id: "call_1".into(),
        name: "read_file".into(),
        args: r#"{"path":"a"}"#.into(),
    }) {
        EventOutcome::CommitToolCall { agent_text, name, args } => {
            assert_eq!(agent_text, "Let me look");
            assert_eq!(name, "read_file");
            assert_eq!(args, r#"{"path":"a"}"#);
        }
        other => panic!("unexpected {other:?}"),
    }
    assert!(a.streaming_text.is_empty());
    match a.apply_event(AppEvent::ToolResult { name: "read_file".into(), content: "data".into() }) {
        EventOutcome::CommitToolResult { name, content } => {
            assert_eq!((name.as_str(), content.as_str()), ("read_file", "data"))
        }
        other => panic!("unexpected {other:?}"),
    }
    assert_eq!(a.messages.len(), 2);
}

fn with_tool_prompt() -> App {
    let mut a = app();
    a.apply_event(AppEvent::Token("Running it".into()));
    match a.apply_event(AppEvent::ToolPrompt { name: "shell".into(), args: r#"{"command":"ls"}"#.into() }) {
        EventOutcome::ShowToolPrompt { agent_text } => assert_eq!(agent_text, "Running it"),
        other => panic!("unexpected {other:?}"),
    }
    assert!(a.streaming_text.is_empty());
    assert!(matches!(&a.pending_tool, Some(PendingTool { name, args }) if name == "shell" && args == r#"{"command":"ls"}"#));
    a
}

#[test]
fn tool_prompt_allows_with_y() {
    let mut a = with_tool_prompt();
    typed_ignored(&mut a, "x");
    assert!(matches!(a.handle_key(key(KeyCode::Char('y'), Modifiers::Plain)), KeyOutcome::ToolAllowed));
    assert!(a.pending_tool.is_none());
    assert!(a.input.is_empty() && a.messages.is_empty());
}

#[test]
fn tool_prompt_rejects_with_n() {
    let mut a = with_tool_prompt();
    assert!(matches!(a.handle_key(key(KeyCode::Char('N'), Modifiers::Shift)), KeyOutcome::Rejected));
    assert!(a.pending_tool.is_none());
}

#[test]
fn conversation_keeps_what_was_said() {
    let mut a = app();
    typed(&mut a, "hi");
    a.handle_key(key(KeyCode::Enter, Modifiers::Plain));
    a.apply_event(AppEvent::ToolCall { id: "c".into(), name: "shell".into(), args: "{}".into() });
    a.apply_event(AppEvent::Token("hello".into()));
    a.apply_event(AppEvent::Done);
    let h = a.conversation();
    assert!(matches!(&h[..],
        [HistoryMessage::User(u), HistoryMessage::Assistant(t)] if u == "hi" && t == "hello"));
}
