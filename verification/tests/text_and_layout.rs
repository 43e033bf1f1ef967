use axon::app::{App, ChatMessage};
use axon::config::{BackendConfig, Config};
use axon::layout::{approval_lines_to_top, format_message, live_layout, live_start_row};
use axon::text::{
    first_line, has_newline, split_lines, tool_call_summary, tool_result_summary, trim, truncate,
};

#[test]
fn split_lines_matches_str_split() {
    for s in ["", "a", "a\nb", "\n", "a\n", "\nb\n\nc", "é\nü"] {
        let expected: Vec<String> = s.split('\n').map(String::from).collect();
        assert_eq!(split_lines(s), expected);
        assert_eq!(split_lines(s).join("\n"), s);
    }
}

#[test]
fn truncate_keeps_short_text() {
    assert_eq!(truncate("hello", 5), "hello");
    assert_eq!(truncate("hello", 120), "hello");
    assert_eq!(truncate("", 0), "");
}

#[test]
fn truncate_cuts_at_char_boundary() {
    assert_eq!(truncate("hello", 3), "hel");
    // 'é' takes two bytes: cutting at 2 would split it.
    assert_eq!(truncate("aé", 2), "a");
    assert_eq!(truncate("aé", 3), "aé");
    assert_eq!(truncate("€x", 2), "");
    assert_eq!(truncate("€x", 3), "€");
}

#[test]
fn first_line_matches_lines() {
    for s in ["", "one", "one\ntwo", "one\r\ntwo", "\n", "\r\n", "a\r", "a\rb\nc"] {
        assert_eq!(first_line(s), s.lines().next().unwrap_or(""));
    }
}

#[test]
fn has_newline_detects_newlines() {
    assert!(has_newline("a\nb"));
    assert!(!has_newline("ab"));
    assert!(!has_newline(""));
}

#[test]
fn trim_matches_str_trim() {
    for s in ["", "  ", " a ", "\t\nhi there\r\n", "\u{3000}x\u{a0}", "x", " \u{2009}y z "] {
        assert_eq!(trim(s), s.trim());
    }
}

#[test]
fn tool_result_summary_marks_more() {
    assert_eq!(tool_result_summary("ok"), "  ok");
    assert_eq!(tool_result_summary("line1\nline2"), "  line1 …");
    let long = "x".repeat(130);
    assert_eq!(tool_result_summary(&long), format!("  {} …", "x".repeat(120)));
    let exact = "y".repeat(120);
    assert_eq!(tool_result_summary(&exact), format!("  {}", exact));
    assert_eq!(tool_result_summary(""), "  ");
}

#[test]
fn tool_call_summary_cuts_args() {
    assert_eq!(tool_call_summary(r#"{"path":"a"}"#), r#"  {"path":"a"}"#);
    let long = "z".repeat(200);
    assert_eq!(tool_call_summary(&long), format!("  {}", "z".repeat(120)));
}

fn app() -> App {
    App::new(Config::new(
        BackendConfig::from_settings(Some("http://h/v1".into()), None, Some("m".into())),
        None,
    ))
}

#[test]
fn live_layout_counts_lines() {
    let mut a = app();
    let l = live_layout(&a);
    assert!(l.streaming_lines.is_empty());
    assert_eq!(l.input_lines, vec![String::new()]);
    assert_eq!(l.lines_to_top, 1);
    assert_eq!(l.cursor_col, 2);
    assert_eq!(l.status, "  http://h/v1  │  m  │  tools: ask");

    a.streaming_text = "one\ntwo".into();
    a.input = "ab\ncdé".into();
    let l = live_layout(&a);
    assert_eq!(l.streaming_lines, vec!["one".to_string(), "two".to_string()]);
    assert_eq!(l.input_lines, vec!["ab".to_string(), "cdé".to_string()]);
    assert_eq!(l.lines_to_top, 4);
    // The column counts bytes: "cdé" is four bytes.
    assert_eq!(l.cursor_col, 6);
}

#[test]
fn approval_area_height() {
    assert_eq!(approval_lines_to_top(7), 8);
}

#[test]
fn messages_format() {
    assert_eq!(format_message(&ChatMessage::User("hi".into())), "You   hi");
    assert_eq!(format_message(&ChatMessage::Agent("yo".into())), "Agent yo");
    assert_eq!(
        format_message(&ChatMessage::ToolCall { name: "shell".into(), args: "null".into() }),
        "  →   shell  null"
    );
    assert_eq!(
        format_message(&ChatMessage::ToolResult { name: "shell".into(), content: "out".into() }),
        "  ←   shell  out"
    );
}

#[test]
fn live_area_starts_at_bottom_below_logo() {
    assert_eq!(live_start_row(40), 37);
    assert_eq!(live_start_row(10), 7);
    assert_eq!(live_start_row(2), 7);
    assert_eq!(live_start_row(0), 7);
}
