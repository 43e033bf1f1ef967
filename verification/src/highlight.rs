//! Syntax highlighting of diff rows with `syntect`, over the syntaxes that
//! `two-face` bundles and `syntect`'s default themes.
use vstd::prelude::*;

use syntect::highlighting::ThemeSet;
use syntect::parsing::SyntaxSet;

verus! {

#[verifier::external_type_specification]
#[verifier::external_body]
pub struct ExSyntaxSet(SyntaxSet);

#[verifier::external_type_specification]
#[verifier::external_body]
pub struct ExThemeSet(ThemeSet);

/// A coloured piece of a highlighted line: its foreground colour (red,
/// green, blue and alpha) and its text.
#[derive(Debug)]
pub struct Piece {
    pub r: u8,
    pub g: u8,
    pub b: u8,
    pub a: u8,
    pub text: String,
}

pub open spec fn piece_view(p: Piece) -> (u8, u8, u8, u8, Seq<char>) {
    (p.r, p.g, p.b, p.a, p.text@)
}

/// The pieces of a line that could not be highlighted: the whole line, in
/// light grey.
pub open spec fn unhighlighted(line: Seq<char>) -> Seq<(u8, u8, u8, u8, Seq<char>)> {
    seq![(200u8, 200u8, 200u8, 255u8, line)]
}

/// The theme diffs are drawn in.
pub fn diff_theme() -> (r: &'static str)
    ensures
        r@ == "base16-ocean.dark"@,
{
    "base16-ocean.dark"
}

/// The syntaxes and themes lines are highlighted with. Every highlighter
/// holds the same sets: those `new` loads.
pub struct Highlighter {
    syntaxes: SyntaxSet,
    themes: ThemeSet,
}

/// Calls `two_face::syntax::extra_newlines`, the syntaxes that `two-face`
/// bundles, in the form that keeps line endings. Nothing is claimed of them.
#[verifier::external_body]
fn bundled_syntaxes() -> SyntaxSet {
    two_face::syntax::extra_newlines()
}

/// Calls `syntect::highlighting::ThemeSet::load_defaults`, the themes that
/// `syntect` bundles. Nothing is claimed of them.
#[verifier::external_body]
fn default_themes() -> ThemeSet {
    ThemeSet::load_defaults()
}

/// A name for how `syntect` highlights `line` under the bundled syntax named
/// `syntax` and the default theme named `theme`: the coloured pieces in
/// order, or `None` when the sets hold no syntax or theme of that name or
/// `syntect` reports an error.
pub uninterp spec fn highlighted(syntax: Seq<char>, theme: Seq<char>, line: Seq<char>) -> Option<
    Seq<(u8, u8, u8, u8, Seq<char>)>,
>;

/// Looks the syntax up with `SyntaxSet::find_syntax_by_name` and the theme
/// in `ThemeSet::themes`, then calls `HighlightLines::highlight_line` on a
/// fresh highlighter and keeps each range's foreground colour and text. The
/// contract claims only that the result is a function of the two names and
/// the line (the sets being always the same), named `highlighted`.
#[verifier::external_body]
fn highlight_raw(h: &Highlighter, syntax: &str, theme: &str, line: &str) -> (r: Option<Vec<Piece>>)
    ensures
        match r {
            Some(v) => highlighted(syntax@, theme@, line@) == Some(
                v@.map_values(|p: Piece| piece_view(p)),
            ),
            None => highlighted(syntax@, theme@, line@) is None,
        },
{
    let syntax = h.syntaxes.find_syntax_by_name(syntax)?;
    let theme = h.themes.themes.get(theme)?;
    let mut lines = syntect::easy::HighlightLines::new(syntax, theme);
    let ranges = lines.highlight_line(line, &h.syntaxes).ok()?;
    let mut r = Vec::new();
    for (style, text) in ranges {
        let c = style.foreground;
        r.push(Piece { r: c.r, g: c.g, b: c.b, a: c.a, text: text.to_string() });
    }
    Some(r)
}

impl Highlighter {
    pub fn new() -> (h: Self) {
        Highlighter { syntaxes: bundled_syntaxes(), themes: default_themes() }
    }

    /// The syntaxes, to choose one for a file by.
    pub fn syntaxes(&self) -> (s: &SyntaxSet) {
        &self.syntaxes
    }

    /// The coloured pieces of a line under the syntax named `syntax` and the
    /// theme named `theme`; the whole line in light grey where it cannot be
    /// highlighted.
    pub fn highlight_row(&self, syntax: &str, theme: &str, line: &str) -> (r: Vec<Piece>)
        ensures
            r@.map_values(|p: Piece| piece_view(p)) == match highlighted(syntax@, theme@, line@) {
                Some(ps) => ps,
                None => unhighlighted(line@),
            },
    {
        match highlight_raw(self, syntax, theme, line) {
            Some(v) => v,
            None => {
                let mut v: Vec<Piece> = Vec::new();
                v.push(Piece { r: 200, g: 200, b: 200, a: 255, text: line.to_owned() });
                assert(v@.map_values(|p: Piece| piece_view(p)) =~= unhighlighted(line@));
                v
            },
        }
    }
}

} // verus!
