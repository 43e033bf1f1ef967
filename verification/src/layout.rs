//! What the live area at the bottom of the terminal holds, and how far its
//! top lies above the cursor.
use vstd::prelude::*;
use vstd::utf8::*;

use crate::app::{App, ChatMessage};
use crate::config::{live_placeholder, status_line, status_text};
use crate::text::{lemma_split_nonempty, split_lines, split_newlines, views};

verus! {

/// The streamed agent text, split into lines; none while nothing streamed.
pub open spec fn streaming_parts(app: App) -> Seq<Seq<char>> {
    if app.streaming_text@.len() == 0 {
        Seq::<Seq<char>>::empty()
    } else {
        split_newlines(app.streaming_text@)
    }
}

/// The input, split into lines (one, empty, when there is no input).
pub open spec fn input_parts(app: App) -> Seq<Seq<char>> {
    split_newlines(app.input@)
}

/// The rows above the input row's last line: the streamed lines, the
/// separator and the input lines but the last, counted as the terminal
/// counts them (the input-line count taken as a `u16`).
pub open spec fn live_height(app: App) -> int {
    streaming_parts(app).len() + (input_parts(app).len() as u16)
}

/// The cursor's column on the last input line: after the two-column prompt
/// and the line's bytes (taken as a `u16`).
pub open spec fn live_cursor_col(app: App) -> int {
    2 + (encode_utf8(input_parts(app).last()).len() as u16)
}

/// What the live area shows.
pub struct LiveLayout {
    /// The streamed agent text, by line; the first is labelled, the others
    /// indented.
    pub streaming_lines: Vec<String>,
    /// The input, by line; the first follows the prompt, the others are
    /// indented.
    pub input_lines: Vec<String>,
    /// The status line below the input.
    pub status: String,
    /// Where the cursor goes on the last input line.
    pub cursor_col: u16,
    /// How many rows up the top of the live area is from the cursor, for the
    /// next clear.
    pub lines_to_top: u16,
}

/// Lays out the live area.
pub fn live_layout(app: &App) -> (l: LiveLayout)
    requires
        live_height(*app) <= u16::MAX,
        live_cursor_col(*app) <= u16::MAX,
        encode_utf8(input_parts(*app).last()).len() <= usize::MAX,
    ensures
        views(l.streaming_lines@) == streaming_parts(*app),
        views(l.input_lines@) == input_parts(*app),
        l.status@ == status_text(app.config, live_placeholder()),
        l.lines_to_top == live_height(*app),
        l.cursor_col == live_cursor_col(*app),
{
    proof {
        lemma_split_nonempty(app.input@);
    }
    let streaming_lines = if app.streaming_text.as_str().is_empty() {
        let v: Vec<String> = Vec::new();
        assert(views(v@) =~= Seq::<Seq<char>>::empty());
        v
    } else {
        split_lines(app.streaming_text.as_str())
    };
    let input_lines = split_lines(app.input.as_str());
    assert(input_lines@.len() == views(input_lines@).len());
    assert(streaming_lines@.len() == views(streaming_lines@).len());
    let streaming_count = streaming_lines.len() as u16;
    let input_count = input_lines.len() as u16;
    let last = &input_lines[input_lines.len() - 1];
    assert(last@ == input_parts(*app).last());
    let cursor_col = 2 + (last.as_str().len() as u16);
    let lines_to_top = streaming_count + input_count;
    LiveLayout {
        streaming_lines,
        input_lines,
        status: status_line(&app.config),
        cursor_col,
        lines_to_top,
    }
}

/// The rows the logo takes at startup.
pub const LOGO_ROWS: u16 = 6;

/// The row where the live area (separator, input and status: three rows)
/// starts at startup: at the bottom of a terminal of `height` rows, but
/// never over the logo.
pub fn live_start_row(height: u16) -> (r: u16)
    ensures
        r == if height >= 3 && height - 3 > LOGO_ROWS + 1 {
            height - 3
        } else {
            LOGO_ROWS + 1
        },
{
    let bottom = if height >= 3 {
        height - 3
    } else {
        0
    };
    if bottom > LOGO_ROWS + 1 {
        bottom
    } else {
        LOGO_ROWS + 1
    }
}

/// How far up the live area's top is while an edit waits: the diff's rows
/// and the separator above the prompt.
pub fn approval_lines_to_top(diff_lines: u16) -> (r: u16)
    requires
        diff_lines < u16::MAX,
    ensures
        r == diff_lines + 1,
{
    diff_lines + 1
}

/// A conversation entry as one line of text.
pub open spec fn message_text(m: ChatMessage) -> Seq<char> {
    match m {
        ChatMessage::User(t) => "You   "@ + t@,
        ChatMessage::Agent(t) => "Agent "@ + t@,
        ChatMessage::ToolCall { name, args } => "  →   "@ + name@ + "  "@ + args@,
        ChatMessage::ToolResult { name, content } => "  ←   "@ + name@ + "  "@ + content@,
    }
}

pub fn format_message(m: &ChatMessage) -> (r: String)
    ensures
        r@ == message_text(*m),
{
    match m {
        ChatMessage::User(t) => {
            let mut r = String::from_str("You   ");
            r.append(t.as_str());
            r
        },
        ChatMessage::Agent(t) => {
            let mut r = String::from_str("Agent ");
            r.append(t.as_str());
            r
        },
        ChatMessage::ToolCall { name, args } => {
            let mut r = String::from_str("  →   ");
            r.append(name.as_str());
            r.append("  ");
            r.append(args.as_str());
            r
        },
        ChatMessage::ToolResult { name, content } => {
            let mut r = String::from_str("  ←   ");
            r.append(name.as_str());
            r.append("  ");
            r.append(content.as_str());
            r
        },
    }
}

} // verus!
