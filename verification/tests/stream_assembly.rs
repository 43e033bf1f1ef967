use axon::event::AppEvent;
use axon::stream::{assemble_tool_calls, PendingToolCalls, StreamAssembler, ToolCallDelta};

fn json_text(s: &str) -> String {
    serde_json::from_str::<serde_json::Value>(s).unwrap().to_string()
}

fn pending(entries: &[(u32, &str, &str, &str)]) -> PendingToolCalls {
    let mut p = PendingToolCalls::new();
    for (idx, id, name, args) in entries {
        p.record(ToolCallDelta {
            index: *idx,
            id: Some(id.to_string()),
            name: Some(name.to_string()),
            arguments: Some(args.to_string()),
        });
    }
    p
}

fn tool_call(id: &str, name: &str, args: String) -> AppEvent {
    AppEvent::ToolCall { id: id.into(), name: name.into(), args }
}

#[test]
fn single_tool_call_valid_json() {
    let events = assemble_tool_calls(pending(&[(
        0,
        "call_abc",
        "read_file",
        r#"{"path":"/etc/hostname"}"#,
    )]));
    assert_eq!(
        events,
        vec![tool_call("call_abc", "read_file", json_text(r#"{"path": "/etc/hostname"}"#))]
    );
}

#[test]
fn multiple_tool_calls_emitted_in_index_order() {
    // Insert in reverse order to verify sorting.
    let events = assemble_tool_calls(pending(&[
        (1, "call_2", "shell", r#"{"cmd":"ls"}"#),
        (0, "call_1", "read_file", r#"{"path":"/etc/hostname"}"#),
    ]));
    assert_eq!(
        events[0],
        tool_call("call_1", "read_file", json_text(r#"{"path": "/etc/hostname"}"#))
    );
    assert_eq!(events[1], tool_call("call_2", "shell", json_text(r#"{"cmd": "ls"}"#)));
}

#[test]
fn invalid_json_args_become_null() {
    let events = assemble_tool_calls(pending(&[(0, "call_x", "read_file", "not json")]));
    assert_eq!(events, vec![tool_call("call_x", "read_file", "null".to_string())]);
}

#[test]
fn empty_args_string_becomes_null() {
    let events = assemble_tool_calls(pending(&[(0, "call_x", "read_file", "")]));
    assert_eq!(events, vec![tool_call("call_x", "read_file", "null".to_string())]);
}

#[test]
fn no_pending_tool_calls_yields_empty() {
    assert!(assemble_tool_calls(PendingToolCalls::new()).is_empty());
}

#[test]
fn fragmented_args_assemble_correctly() {
    // Simulate the three-chunk arg stream: '{"pa' + 'th":"' + '/etc/hostname"}'
    let mut p = PendingToolCalls::new();
    p.record(ToolCallDelta {
        index: 0,
        id: Some("call_1".into()),
        name: Some("read_file".into()),
        arguments: Some(r#"{"pa"#.into()),
    });
    p.record(ToolCallDelta { index: 0, id: None, name: None, arguments: Some(r#"th":""#.into()) });
    p.record(ToolCallDelta {
        index: 0,
        id: None,
        name: None,
        arguments: Some(r#"/etc/hostname"}"#.into()),
    });

    let events = assemble_tool_calls(p);
    assert_eq!(
        events,
        vec![tool_call("call_1", "read_file", json_text(r#"{"path": "/etc/hostname"}"#))]
    );
}

#[test]
fn args_are_reprinted_compactly() {
    let events = assemble_tool_calls(pending(&[(0, "c", "shell", "{ \"command\" :  \"ls\" }")]));
    assert_eq!(events, vec![tool_call("c", "shell", r#"{"command":"ls"}"#.to_string())]);
}

#[test]
fn later_id_and_name_replace_earlier_ones() {
    let mut p = PendingToolCalls::new();
    p.record(ToolCallDelta { index: 3, id: Some("a".into()), name: Some("x".into()), arguments: None });
    p.record(ToolCallDelta { index: 3, id: Some("b".into()), name: None, arguments: Some("[1]".into()) });
    assert_eq!(assemble_tool_calls(p), vec![tool_call("b", "x", "[1]".to_string())]);
}

#[test]
fn token_stream_then_done() {
    let mut s = StreamAssembler::new();
    let mut events = Vec::new();
    for piece in ["Hello", ", ", "world", ""] {
        if let Some(e) = s.on_choice(Some(piece.to_string()), vec![]) {
            events.push(e);
        }
    }
    assert_eq!(s.on_choice(None, vec![]), None);
    events.extend(s.finish());
    assert_eq!(
        events,
        vec![
            AppEvent::Token("Hello".into()),
            AppEvent::Token(", ".into()),
            AppEvent::Token("world".into()),
            AppEvent::Done,
        ]
    );
}

#[test]
fn mixed_tokens_and_fragmented_tool_calls() {
    let mut s = StreamAssembler::new();
    let mut events = Vec::new();
    events.extend(s.on_choice(Some("Thinking".into()), vec![]));
    events.extend(s.on_choice(Some("...".into()), vec![]));
    let frag = |index: u32, id: Option<&str>, name: Option<&str>, args: Option<&str>| ToolCallDelta {
        index,
        id: id.map(String::from),
        name: name.map(String::from),
        arguments: args.map(String::from),
    };
    events.extend(s.on_choice(None, vec![frag(1, Some("call_2"), Some("shell"), Some(""))]));
    events.extend(s.on_choice(None, vec![frag(0, Some("call_1"), Some("read_file"), Some(r#"{"pa"#))]));
    events.extend(s.on_choice(None, vec![frag(0, None, None, Some(r#"th":"/x"}"#))]));
    events.extend(s.on_choice(None, vec![frag(1, None, None, Some(r#"{"command":"ls"}"#))]));
    events.extend(s.finish());
    assert_eq!(
        events,
        vec![
            AppEvent::Token("Thinking".into()),
            AppEvent::Token("...".into()),
            tool_call("call_1", "read_file", r#"{"path":"/x"}"#.to_string()),
            tool_call("call_2", "shell", r#"{"command":"ls"}"#.to_string()),
            AppEvent::Done,
        ]
    );
}

#[test]
fn file_diff_equals_nothing() {
    let d = || AppEvent::FileDiff {
        path: "a".into(),
        before: "b".into(),
        after: "c".into(),
        awaits_approval: false,
    };
    assert_ne!(d(), d());
    assert_eq!(AppEvent::Done, AppEvent::Done);
    assert_ne!(AppEvent::Token("a".into()), AppEvent::Token("b".into()));
}
