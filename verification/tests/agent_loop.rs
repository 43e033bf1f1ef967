use axon::event::AppEvent;
use axon::inference::{
    tool_result_content, AgentRun, HistoryMessage, NextStep, ToolCallRecord, TurnCollector,
    TurnOutcome, MAX_TURNS,
};

fn json_text(s: &str) -> String {
    serde_json::from_str::<serde_json::Value>(s).unwrap().to_string()
}

#[test]
fn token_turn_forwards_all_tokens() {
    let mut turn = TurnCollector::new();
    let events = vec![
        AppEvent::Token("hello".into()),
        AppEvent::Token(" world".into()),
        AppEvent::Done,
    ];
    let forwarded: Vec<AppEvent> = events.into_iter().filter_map(|e| turn.observe(e)).collect();
    assert!(turn.calls.is_empty());
    assert_eq!(
        forwarded,
        vec![AppEvent::Token("hello".into()), AppEvent::Token(" world".into())]
    );
}

#[test]
fn tool_call_turn_forwards_event_and_returns_calls() {
    let mut turn = TurnCollector::new();
    let args = json_text(r#"{"path": "/etc/hosts"}"#);
    let events = vec![
        AppEvent::ToolCall { id: "call_1".into(), name: "read_file".into(), args: args.clone() },
        AppEvent::Done,
    ];
    let forwarded: Vec<AppEvent> = events.into_iter().filter_map(|e| turn.observe(e)).collect();
    assert_eq!(turn.calls.len(), 1);
    assert_eq!(turn.calls[0].id, "call_1");
    assert_eq!(turn.calls[0].name, "read_file");
    assert_eq!(turn.calls[0].args, args);
    assert_eq!(
        forwarded,
        vec![AppEvent::ToolCall { id: "call_1".into(), name: "read_file".into(), args }]
    );
}

fn call(id: &str) -> ToolCallRecord {
    ToolCallRecord { id: id.into(), name: "shell".into(), args: "{}".into() }
}

#[test]
fn run_stops_after_turn_limit() {
    let mut run = AgentRun::new(vec![HistoryMessage::User("go".into())]);
    let mut turns = 0;
    while run.begin_turn() {
        turns += 1;
        match run.end_turn(TurnOutcome::Completed(vec![call("c")])) {
            NextStep::RunTools(calls) => {
                for c in calls {
                    run.record_tool_result(c.id, "ok".into());
                }
            }
            NextStep::Finish => break,
        }
    }
    assert_eq!(turns, MAX_TURNS);
    assert_eq!(run.history().len(), 1 + 2 * MAX_TURNS);
    assert!(!run.begin_turn());
    assert_eq!(run.finish(), AppEvent::Done);
}

#[test]
fn run_reports_done_once_when_finished() {
    let mut run = AgentRun::new(vec![HistoryMessage::User("hi".into())]);
    assert!(run.begin_turn());
    assert!(matches!(run.end_turn(TurnOutcome::Completed(vec![])), NextStep::Finish));
    assert_eq!(run.finish(), AppEvent::Done);
    assert_eq!(run.history().len(), 1);
}

#[test]
fn run_finishes_without_tools_or_on_failure() {
    let mut run = AgentRun::new(vec![]);
    assert!(matches!(run.end_turn(TurnOutcome::Completed(vec![])), NextStep::Finish));
    assert!(matches!(run.end_turn(TurnOutcome::Failed), NextStep::Finish));
    assert!(matches!(run.end_turn(TurnOutcome::Cancelled), NextStep::Finish));
    assert!(run.history().is_empty());
}

#[test]
fn tool_calls_join_history() {
    let mut run = AgentRun::new(vec![HistoryMessage::User("go".into())]);
    match run.end_turn(TurnOutcome::Completed(vec![call("a"), call("b")])) {
        NextStep::RunTools(calls) => assert_eq!(calls.len(), 2),
        NextStep::Finish => panic!("expected tools"),
    }
    run.record_tool_result("a".into(), "x".into());
    match &run.history()[..] {
        [HistoryMessage::User(_), HistoryMessage::AssistantToolCalls(calls), HistoryMessage::Tool { call_id, content }] => {
            assert_eq!(calls.len(), 2);
            assert_eq!(calls[1].id, "b");
            assert_eq!((call_id.as_str(), content.as_str()), ("a", "x"));
        }
        _ => panic!("unexpected history"),
    }
}

#[test]
fn tool_errors_are_reported_as_text() {
    assert_eq!(tool_result_content(Ok("fine".into())), "fine");
    assert_eq!(tool_result_content(Err("missing path".into())), "error: missing path");
}
