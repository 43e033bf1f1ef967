use axon::highlight::{diff_theme, Highlighter};
use axon::diff::{
    diff_header, omitted_note, plan_committed_diff, plan_diff, plan_text_diff, printable_piece,
    visible_color,
    ChangeKind, DiffPlan, LineChange,
};

fn plan(before: &str, after: &str, max_lines: usize) -> DiffPlan {
    plan_text_diff(before, after, max_lines).unwrap()
}

#[test]
fn diff_lines_lists_changes() {
    let rows = plan("a\nb\nc\n", "a\nx\nc\n", usize::MAX).rows;
    let got: Vec<(ChangeKind, String)> = rows.into_iter().map(|c| (c.kind, c.text)).collect();
    assert_eq!(
        got,
        vec![
            (ChangeKind::Equal, "a\n".to_string()),
            (ChangeKind::Delete, "b\n".to_string()),
            (ChangeKind::Insert, "x\n".to_string()),
            (ChangeKind::Equal, "c\n".to_string()),
        ]
    );
}

#[test]
fn plan_numbers_both_sides() {
    let plan = plan("a\nb\nc\n", "a\nx\nc\n", usize::MAX);
    let prefixes: Vec<&str> = plan.rows.iter().map(|r| r.prefix.as_str()).collect();
    assert_eq!(
        prefixes,
        vec!["      1     1 ", " -    2       ", " +          2 ", "      3     3 "]
    );
    assert_eq!(plan.omitted, 0);
    assert_eq!(plan.height, 5);
}

#[test]
fn plan_cuts_long_diffs() {
    let before: String = (0..30).map(|i| format!("{i}\n")).collect();
    let plan = plan(&before, "", 20);
    assert_eq!(plan.rows.len(), 20);
    assert_eq!(plan.omitted, 10);
    assert_eq!(plan.height, 22);
    assert_eq!(plan.rows[19].prefix, " -   20       ");
    assert_eq!(omitted_note(plan.omitted), "  … 10 lines omitted");
}

#[test]
fn plan_of_equal_texts_keeps_all_lines() {
    let plan = plan("same\n", "same\n", 20);
    assert_eq!(plan.rows.len(), 1);
    assert_eq!(plan.rows[0].kind, ChangeKind::Equal);
    assert_eq!(plan.rows[0].text, "same\n");
}

#[test]
fn wide_line_numbers() {
    let before: String = (0..12345).map(|_| "x\n").collect();
    let plan = plan(&before, "", usize::MAX);
    assert_eq!(plan.rows[12344].prefix, " - 12345       ");
}

#[test]
fn header_and_pieces() {
    assert_eq!(diff_header("src/main.rs"), "  diff  src/main.rs");
    assert_eq!(printable_piece("fn main\n"), Some("fn main".to_string()));
    assert_eq!(printable_piece("\n\n"), None);
    assert_eq!(printable_piece(""), None);
    assert_eq!(visible_color(1, 2, 3, 0), None);
    assert_eq!(visible_color(1, 2, 3, 255), Some((1, 2, 3)));
}

#[test]
fn plan_diff_counts_given_changes() {
    let change = |kind, text: &str| LineChange { kind, text: text.to_string() };
    let p = plan_diff(
        vec![change(ChangeKind::Insert, "a\n"), change(ChangeKind::Insert, "b\n")],
        0,
    );
    assert!(p.rows.is_empty());
    assert_eq!(p.omitted, 2);
    assert_eq!(p.height, 2);
    assert_eq!(omitted_note(p.omitted), "  … 2 lines omitted");
}

#[test]
fn committed_plan_cuts_at_twenty_rows() {
    let before: String = (0..25).map(|i| format!("{i}\n")).collect();
    let p = plan_committed_diff(&before, "");
    assert_eq!(p.rows.len(), 20);
    assert_eq!(p.omitted, 5);
    assert_eq!(omitted_note(p.omitted), "  … 5 lines omitted");
}

#[test]
fn short_committed_plan_equals_full_plan() {
    let c = plan_committed_diff("a\nb\n", "a\nc\n");
    let f = plan("a\nb\n", "a\nc\n", usize::MAX);
    assert_eq!(c.omitted, 0);
    assert_eq!(c.height, f.height);
    let prefixes = |p: &DiffPlan| p.rows.iter().map(|r| r.prefix.clone()).collect::<Vec<_>>();
    assert_eq!(prefixes(&c), prefixes(&f));
}

#[test]
fn rust_line_is_highlighted_in_pieces() {
    let h = Highlighter::new();
    let line = "fn main() { let x = 1; }\n";
    let pieces = h.highlight_row("Rust", diff_theme(), line);
    assert!(pieces.len() > 1);
    let joined: String = pieces.iter().map(|p| p.text.as_str()).collect();
    assert_eq!(joined, line);
    assert!(pieces.iter().any(|p| (p.r, p.g, p.b) != (200, 200, 200)));
}

#[test]
fn unknown_syntax_gives_grey_line() {
    let h = Highlighter::new();
    let pieces = h.highlight_row("No Such Syntax", diff_theme(), "x = 1\n");
    assert_eq!(pieces.len(), 1);
    assert_eq!((pieces[0].r, pieces[0].g, pieces[0].b, pieces[0].a), (200, 200, 200, 255));
    assert_eq!(pieces[0].text, "x = 1\n");
    let pieces = h.highlight_row("Rust", "no such theme", "x\n");
    assert_eq!(pieces[0].text, "x\n");
    assert_eq!(pieces.len(), 1);
}

#[test]
fn syntax_for_a_file_is_found_by_extension() {
    let h = Highlighter::new();
    let syntax = h.syntaxes().find_syntax_by_extension("rs").unwrap();
    assert_eq!(syntax.name, "Rust");
}
