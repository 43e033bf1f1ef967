//! What a diff shows: one row per changed, removed or kept line, with the
//! line numbers on both sides, cut short with a count of what was left out.
//!
//! The line diff itself comes from `similar`; colouring and printing are the
//! caller's.
use vstd::prelude::*;

use crate::text::push_char;

verus! {

/// How many rows of an accepted edit's diff stay in the history.
pub const MAX_COMMITTED_LINES: usize = 20;

/// What happened to a line.
#[derive(Clone, Copy, Debug, PartialEq, Eq, Structural)]
pub enum ChangeKind {
    Equal,
    Delete,
    Insert,
}

/// A line of a line diff, with its line ending.
#[derive(Debug)]
pub struct LineChange {
    pub kind: ChangeKind,
    pub text: String,
}

pub open spec fn change_view(c: LineChange) -> (ChangeKind, Seq<char>) {
    (c.kind, c.text@)
}

/// A name for the line diff `similar` computes between two texts (with its
/// default settings, which set no deadline).
pub uninterp spec fn line_diff(before: Seq<char>, after: Seq<char>) -> Seq<(ChangeKind, Seq<char>)>;

/// Calls `similar::TextDiff::from_lines` and lists its `iter_all_changes`,
/// each change with its tag and its text. The contract claims only that the
/// list is a function of the two texts, named `line_diff`.
#[verifier::external_body]
fn diff_lines(before: &str, after: &str) -> (r: Vec<LineChange>)
    ensures
        r@.map_values(|c: LineChange| change_view(c)) == line_diff(before@, after@),
{
    let diff = similar::TextDiff::from_lines(before, after);
    let mut r = Vec::new();
    for change in diff.iter_all_changes() {
        let kind = match change.tag() {
            similar::ChangeTag::Equal => ChangeKind::Equal,
            similar::ChangeTag::Delete => ChangeKind::Delete,
            similar::ChangeTag::Insert => ChangeKind::Insert,
        };
        r.push(LineChange { kind, text: change.value().to_string() });
    }
    r
}

/// The decimal digits of `n`.
pub open spec fn digits_of(n: nat) -> Seq<char>
    decreases n,
{
    if n < 10 {
        seq![digit_char(n)]
    } else {
        digits_of(n / 10).push(digit_char(n % 10))
    }
}

pub open spec fn digit_char(d: nat) -> char {
    if d == 0 {
        '0'
    } else if d == 1 {
        '1'
    } else if d == 2 {
        '2'
    } else if d == 3 {
        '3'
    } else if d == 4 {
        '4'
    } else if d == 5 {
        '5'
    } else if d == 6 {
        '6'
    } else if d == 7 {
        '7'
    } else if d == 8 {
        '8'
    } else {
        '9'
    }
}

fn digit(d: u64) -> (c: char)
    requires
        d < 10,
    ensures
        c == digit_char(d as nat),
{
    if d == 0 {
        '0'
    } else if d == 1 {
        '1'
    } else if d == 2 {
        '2'
    } else if d == 3 {
        '3'
    } else if d == 4 {
        '4'
    } else if d == 5 {
        '5'
    } else if d == 6 {
        '6'
    } else if d == 7 {
        '7'
    } else if d == 8 {
        '8'
    } else {
        '9'
    }
}

/// Appends the decimal digits of `n`.
pub fn push_decimal(s: &mut String, n: u64)
    ensures
        final(s)@ == old(s)@ + digits_of(n as nat),
    decreases n,
{
    if n >= 10 {
        push_decimal(s, n / 10);
    }
    push_char(s, digit(n % 10));
    assert(final(s)@ =~= old(s)@ + digits_of(n as nat));
}

/// `k` spaces.
pub open spec fn spaces(k: int) -> Seq<char> {
    Seq::new(if k > 0 { k as nat } else { 0 }, |i: int| ' ')
}

/// `n` in decimal, right-aligned in a field of four.
pub open spec fn num4(n: nat) -> Seq<char> {
    spaces(4 - digits_of(n).len()) + digits_of(n)
}

fn push_spaces(s: &mut String, k: usize)
    ensures
        final(s)@ == old(s)@ + spaces(k as int),
{
    let mut i: usize = 0;
    while i < k
        invariant
            i <= k,
            s@ == old(s)@ + spaces(i as int),
        decreases k - i,
    {
        push_char(s, ' ');
        i = i + 1;
        assert(s@ =~= old(s)@ + spaces(i as int));
    }
}

fn push_num4(s: &mut String, n: u64)
    ensures
        final(s)@ == old(s)@ + num4(n as nat),
{
    let mut d = String::new();
    push_decimal(&mut d, n);
    assert(d@ =~= digits_of(n as nat));
    let k = d.as_str().unicode_len();
    if k < 4 {
        push_spaces(s, 4 - k);
    } else {
        push_spaces(s, 0);
    }
    s.append(d.as_str());
    assert(final(s)@ =~= old(s)@ + num4(n as nat));
}

/// The front of a diff row: a space, the marker (`-`, `+` or a space), a
/// space, and the line numbers: the old one for a removed line, the new one
/// for an added line, both for a kept one, each right-aligned in four columns.
pub open spec fn row_prefix(kind: ChangeKind, old_line: nat, new_line: nat) -> Seq<char> {
    match kind {
        ChangeKind::Delete => " - "@ + num4(old_line) + "       "@,
        ChangeKind::Insert => " + "@ + "      "@ + num4(new_line) + " "@,
        ChangeKind::Equal => "   "@ + num4(old_line) + "  "@ + num4(new_line) + " "@,
    }
}

proof fn lemma_digits_shape(n: nat)
    ensures
        digits_of(n).len() >= 1,
        n >= 10 ==> digits_of(n).len() >= 2,
        forall|i: int| 0 <= i < digits_of(n).len() ==> #[trigger] digits_of(n)[i] != ' ',
    decreases n,
{
    if n >= 10 {
        lemma_digits_shape(n / 10);
        let d = digits_of(n / 10);
        assert forall|i: int| 0 <= i < digits_of(n).len() implies #[trigger] digits_of(n)[i]
            != ' ' by {
            if i < d.len() {
                assert(digits_of(n)[i] == d[i]);
            }
        }
    }
}

/// Different numbers have different decimal digits.
proof fn lemma_digits_injective(a: nat, b: nat)
    requires
        digits_of(a) == digits_of(b),
    ensures
        a == b,
    decreases a,
{
    lemma_digits_shape(a);
    lemma_digits_shape(b);
    if a >= 10 && b >= 10 {
        assert(digits_of(a).last() == digit_char(a % 10));
        assert(digits_of(b).last() == digit_char(b % 10));
        assert(a % 10 == b % 10);
        assert(digits_of(a).drop_last() =~= digits_of(a / 10));
        assert(digits_of(b).drop_last() =~= digits_of(b / 10));
        lemma_digits_injective(a / 10, b / 10);
    } else if a < 10 && b < 10 {
        assert(digits_of(a)[0] == digit_char(a));
        assert(digits_of(b)[0] == digit_char(b));
    }
}

/// Different numbers are shown differently in a field of four.
proof fn lemma_num4_injective(a: nat, b: nat)
    requires
        num4(a) == num4(b),
    ensures
        a == b,
{
    lemma_digits_shape(a);
    lemma_digits_shape(b);
    let da = digits_of(a);
    let db = digits_of(b);
    let sa = spaces(4 - da.len()).len() as int;
    let sb = spaces(4 - db.len()).len() as int;
    if sa < sb {
        assert(num4(a)[sa] == da[0]);
        assert(num4(b)[sa] == ' ');
    } else if sb < sa {
        assert(num4(b)[sb] == db[0]);
        assert(num4(a)[sb] == ' ');
    } else {
        assert(num4(a).skip(sa) =~= da);
        assert(num4(b).skip(sb) =~= db);
        lemma_digits_injective(a, b);
    }
}

/// A kept or added row shows the line's own number in the new text: rows
/// for different new line numbers differ, whatever the old number.
pub proof fn lemma_row_prefix_shows_new_line(kind: ChangeKind, old_line: nat, n1: nat, n2: nat)
    requires
        kind != ChangeKind::Delete,
        n1 != n2,
    ensures
        row_prefix(kind, old_line, n1) != row_prefix(kind, old_line, n2),
{
    reveal_strlit(" ");
    let head = match kind {
        ChangeKind::Insert => " + "@ + "      "@,
        _ => "   "@ + num4(old_line) + "  "@,
    };
    let r1 = row_prefix(kind, old_line, n1);
    let r2 = row_prefix(kind, old_line, n2);
    assert(r1 == head + num4(n1) + " "@);
    assert(r2 == head + num4(n2) + " "@);
    if r1 == r2 {
        assert((head + num4(n1) + " "@).subrange(head.len() as int, r1.len() - 1) =~= num4(n1));
        assert((head + num4(n2) + " "@).subrange(head.len() as int, r2.len() - 1) =~= num4(n2));
        lemma_num4_injective(n1, n2);
    }
}

/// A kept or removed row shows the line's own number in the old text: rows
/// for different old line numbers differ, whatever the new number.
pub proof fn lemma_row_prefix_shows_old_line(kind: ChangeKind, o1: nat, o2: nat, new_line: nat)
    requires
        kind != ChangeKind::Insert,
        o1 != o2,
    ensures
        row_prefix(kind, o1, new_line) != row_prefix(kind, o2, new_line),
{
    reveal_strlit(" - ");
    reveal_strlit("   ");
    let r1 = row_prefix(kind, o1, new_line);
    let r2 = row_prefix(kind, o2, new_line);
    let tail = match kind {
        ChangeKind::Delete => "       "@,
        _ => "  "@ + num4(new_line) + " "@,
    };
    let head = match kind {
        ChangeKind::Delete => " - "@,
        _ => "   "@,
    };
    assert(r1 == head + num4(o1) + tail);
    assert(r2 == head + num4(o2) + tail);
    if r1 == r2 {
        assert((head + num4(o1) + tail).subrange(3, r1.len() - tail.len()) =~= num4(o1));
        assert((head + num4(o2) + tail).subrange(3, r2.len() - tail.len()) =~= num4(o2));
        lemma_num4_injective(o1, o2);
    }
}

pub fn make_row_prefix(kind: ChangeKind, old_line: u32, new_line: u32) -> (r: String)
    ensures
        r@ == row_prefix(kind, old_line as nat, new_line as nat),
{
    match kind {
        ChangeKind::Delete => {
            let mut r = String::from_str(" - ");
            push_num4(&mut r, old_line as u64);
            r.append("       ");
            r
        },
        ChangeKind::Insert => {
            let mut r = String::from_str(" + ");
            r.append("      ");
            push_num4(&mut r, new_line as u64);
            r.append(" ");
            r
        },
        ChangeKind::Equal => {
            let mut r = String::from_str("   ");
            push_num4(&mut r, old_line as u64);
            r.append("  ");
            push_num4(&mut r, new_line as u64);
            r.append(" ");
            r
        },
    }
}

/// How many of the first `i` changes have a line on the old side (kept or
/// removed).
pub open spec fn old_side_count(ks: Seq<ChangeKind>, i: int) -> nat
    decreases i,
{
    if i <= 0 {
        0
    } else {
        old_side_count(ks, i - 1) + if ks[i - 1] != ChangeKind::Insert {
            1nat
        } else {
            0nat
        }
    }
}

/// How many of the first `i` changes have a line on the new side (kept or
/// added).
pub open spec fn new_side_count(ks: Seq<ChangeKind>, i: int) -> nat
    decreases i,
{
    if i <= 0 {
        0
    } else {
        new_side_count(ks, i - 1) + if ks[i - 1] != ChangeKind::Delete {
            1nat
        } else {
            0nat
        }
    }
}

pub proof fn lemma_side_counts_bounded(ks: Seq<ChangeKind>, i: int)
    requires
        0 <= i,
    ensures
        old_side_count(ks, i) <= i,
        new_side_count(ks, i) <= i,
    decreases i,
{
    if i > 0 {
        lemma_side_counts_bounded(ks, i - 1);
    }
}

/// Each change has a line on at least one side.
pub proof fn lemma_side_counts_cover(ks: Seq<ChangeKind>, i: int)
    requires
        0 <= i,
    ensures
        old_side_count(ks, i) + new_side_count(ks, i) >= i,
    decreases i,
{
    if i > 0 {
        lemma_side_counts_cover(ks, i - 1);
    }
}

/// Counting further never counts fewer lines.
pub proof fn lemma_side_counts_grow(ks: Seq<ChangeKind>, i: int, j: int)
    requires
        0 <= i <= j,
    ensures
        old_side_count(ks, i) <= old_side_count(ks, j),
        new_side_count(ks, i) <= new_side_count(ks, j),
    decreases j - i,
{
    if i < j {
        lemma_side_counts_grow(ks, i, j - 1);
    }
}

/// How many of `len` changes are shown with at most `max_lines` rows.
pub open spec fn shown_count(len: int, max_lines: usize) -> int {
    if len <= max_lines {
        len
    } else {
        max_lines as int
    }
}

/// Whether the shown rows of changes of kinds `ks` can be numbered in `u32`:
/// on each side they hold fewer than `u32::MAX` lines.
pub open spec fn numberable(ks: Seq<ChangeKind>, max_lines: usize) -> bool {
    let shown = shown_count(ks.len() as int, max_lines);
    old_side_count(ks, shown) < u32::MAX && new_side_count(ks, shown) < u32::MAX
}

/// A shown row of a diff.
#[derive(Debug)]
pub struct DiffRow {
    pub kind: ChangeKind,
    /// Marker and line numbers.
    pub prefix: String,
    /// The line, with its line ending.
    pub text: String,
}

/// A diff as it is shown.
#[derive(Debug)]
pub struct DiffPlan {
    /// The shown rows, in order.
    pub rows: Vec<DiffRow>,
    /// How many lines were left out at the end (0 when none).
    pub omitted: usize,
    /// The lines the diff takes on screen: header, rows and, when lines were
    /// left out, the note saying so (as a `u16`, wrapping).
    pub height: u16,
}

/// The kinds of a list of changes.
pub open spec fn kinds(cs: Seq<LineChange>) -> Seq<ChangeKind> {
    cs.map_values(|c: LineChange| c.kind)
}

/// Lays out a diff: the first `max_lines` changes become rows, numbered from
/// 1 on each side, and the rest is counted as left out.
pub fn plan_diff(changes: Vec<LineChange>, max_lines: usize) -> (plan: DiffPlan)
    requires
        numberable(kinds(changes@), max_lines),
    ensures
        plan.rows@.len() == if changes@.len() <= max_lines {
            changes@.len() as int
        } else {
            max_lines as int
        },
        plan.omitted == if changes@.len() <= max_lines {
            0
        } else {
            changes@.len() - max_lines
        },
        plan.height == ((plan.rows@.len() + if plan.omitted > 0 {
            1int
        } else {
            0int
        } + 1) as u16),
        forall|i: int|
            0 <= i < plan.rows@.len() ==> {
                &&& #[trigger] plan.rows@[i].kind == changes@[i].kind
                &&& plan.rows@[i].text@ == changes@[i].text@
                &&& plan.rows@[i].prefix@ == row_prefix(
                    changes@[i].kind,
                    old_side_count(kinds(changes@), i) + 1,
                    new_side_count(kinds(changes@), i) + 1,
                )
            },
{
    let ghost cs = changes@;
    let total = changes.len();
    let shown = if total <= max_lines {
        total
    } else {
        max_lines
    };
    let mut rows: Vec<DiffRow> = Vec::new();
    let mut old_line: u32 = 1;
    let mut new_line: u32 = 1;
    let mut i: usize = 0;
    let mut rest = changes;
    while i < shown
        invariant
            shown <= total == cs.len(),
            shown == shown_count(cs.len() as int, max_lines),
            numberable(kinds(cs), max_lines),
            i <= shown,
            rest@ == cs,
            rows@.len() == i,
            old_line == old_side_count(kinds(cs), i as int) + 1,
            new_line == new_side_count(kinds(cs), i as int) + 1,
            forall|j: int|
                0 <= j < i ==> {
                    &&& #[trigger] rows@[j].kind == cs[j].kind
                    &&& rows@[j].text@ == cs[j].text@
                    &&& rows@[j].prefix@ == row_prefix(
                        cs[j].kind,
                        old_side_count(kinds(cs), j) + 1,
                        new_side_count(kinds(cs), j) + 1,
                    )
                },
        decreases shown - i,
    {
        proof {
            lemma_side_counts_grow(kinds(cs), i + 1, shown as int);
        }
        let kind = rest[i].kind;
        let prefix = make_row_prefix(kind, old_line, new_line);
        let text = rest[i].text.clone();
        rows.push(DiffRow { kind, prefix, text });
        match kind {
            ChangeKind::Delete => {
                old_line = old_line + 1;
            },
            ChangeKind::Insert => {
                new_line = new_line + 1;
            },
            ChangeKind::Equal => {
                old_line = old_line + 1;
                new_line = new_line + 1;
            },
        }
        i = i + 1;
    }
    let omitted = total - shown;
    proof {
        lemma_side_counts_cover(kinds(cs), shown as int);
    }
    let wide = shown as u64;
    let height = if omitted > 0 {
        (wide + 2) as u16
    } else {
        (wide + 1) as u16
    };
    DiffPlan { rows, omitted, height }
}

/// Lays out the line diff of two texts: the first `max_lines` changes of
/// `similar`'s line diff become rows, the rest is counted as left out.
/// `None` when the shown rows hold `u32::MAX` or more lines on one side,
/// too many to number.
pub fn plan_text_diff(before: &str, after: &str, max_lines: usize) -> (r: Option<DiffPlan>)
    ensures
        numberable(line_kinds(line_diff(before@, after@)), max_lines) ==> (r matches Some(plan)
            && plan_of(line_diff(before@, after@), max_lines, plan)),
        !numberable(line_kinds(line_diff(before@, after@)), max_lines) ==> r is None,
{
    let changes = diff_lines(before, after);
    assert(changes@.len() == line_diff(before@, after@).len());
    assert(kinds(changes@) =~= line_kinds(line_diff(before@, after@)));
    let shown = if changes.len() <= max_lines {
        changes.len()
    } else {
        max_lines
    };
    let (old_lines, new_lines) = side_counts(&changes, shown);
    if old_lines >= 0xffff_ffff || new_lines >= 0xffff_ffff {
        return None;
    }
    let plan = plan_diff(changes, max_lines);
    Some(plan)
}

/// The kinds of a line diff's changes.
pub open spec fn line_kinds(cs: Seq<(ChangeKind, Seq<char>)>) -> Seq<ChangeKind> {
    cs.map_values(|c: (ChangeKind, Seq<char>)| c.0)
}

/// How many of the first `upto` changes have a line on the old side, and
/// how many on the new side.
fn side_counts(changes: &Vec<LineChange>, upto: usize) -> (r: (usize, usize))
    requires
        upto <= changes@.len(),
    ensures
        r.0 == old_side_count(kinds(changes@), upto as int),
        r.1 == new_side_count(kinds(changes@), upto as int),
{
    let mut old_lines: usize = 0;
    let mut new_lines: usize = 0;
    let mut i: usize = 0;
    while i < upto
        invariant
            i <= upto <= changes@.len(),
            old_lines == old_side_count(kinds(changes@), i as int),
            new_lines == new_side_count(kinds(changes@), i as int),
        decreases upto - i,
    {
        proof {
            lemma_side_counts_bounded(kinds(changes@), i as int);
        }
        match changes[i].kind {
            ChangeKind::Delete => {
                old_lines = old_lines + 1;
            },
            ChangeKind::Insert => {
                new_lines = new_lines + 1;
            },
            ChangeKind::Equal => {
                old_lines = old_lines + 1;
                new_lines = new_lines + 1;
            },
        }
        i = i + 1;
    }
    (old_lines, new_lines)
}

/// Lays out the compact diff kept in the history: the first
/// `MAX_COMMITTED_LINES` changes as rows, the rest counted as left out.
pub fn plan_committed_diff(before: &str, after: &str) -> (plan: DiffPlan)
    ensures
        plan_of(line_diff(before@, after@), MAX_COMMITTED_LINES, plan),
{
    let ghost ks = line_kinds(line_diff(before@, after@));
    proof {
        lemma_side_counts_bounded(ks, shown_count(ks.len() as int, MAX_COMMITTED_LINES));
    }
    match plan_text_diff(before, after, MAX_COMMITTED_LINES) {
        Some(plan) => plan,
        None => {
            assert(false);
            DiffPlan { rows: Vec::new(), omitted: 0, height: 1 }
        },
    }
}

/// A diff with no more changes than either of two limits is laid out alike
/// under both: the compact diff of a short change shows all that the full
/// one shows.
pub proof fn lemma_short_diff_same_plan(
    cs: Seq<(ChangeKind, Seq<char>)>,
    m1: usize,
    m2: usize,
    p1: DiffPlan,
    p2: DiffPlan,
)
    requires
        plan_of(cs, m1, p1),
        plan_of(cs, m2, p2),
        cs.len() <= m1,
        cs.len() <= m2,
    ensures
        p1.rows@.len() == p2.rows@.len() == cs.len(),
        p1.omitted == 0 && p2.omitted == 0,
        p1.height == p2.height,
        forall|i: int|
            0 <= i < cs.len() ==> #[trigger] p1.rows@[i].kind == p2.rows@[i].kind
                && p1.rows@[i].text@ == p2.rows@[i].text@ && p1.rows@[i].prefix@
                == p2.rows@[i].prefix@,
{
    assert forall|i: int| 0 <= i < cs.len() implies #[trigger] p1.rows@[i].kind
        == p2.rows@[i].kind && p1.rows@[i].text@ == p2.rows@[i].text@ && p1.rows@[i].prefix@
        == p2.rows@[i].prefix@ by {
        assert(p1.rows@[i].kind == cs[i].0);
        assert(p2.rows@[i].kind == cs[i].0);
    }
}

/// `plan` lays out the changes `cs` with at most `max_lines` rows.
pub open spec fn plan_of(cs: Seq<(ChangeKind, Seq<char>)>, max_lines: usize, plan: DiffPlan) -> bool {
    let ks = cs.map_values(|c: (ChangeKind, Seq<char>)| c.0);
    &&& plan.rows@.len() == if cs.len() <= max_lines {
        cs.len() as int
    } else {
        max_lines as int
    }
    &&& plan.omitted == if cs.len() <= max_lines {
        0
    } else {
        cs.len() - max_lines
    }
    &&& plan.height == ((plan.rows@.len() + if plan.omitted > 0 {
        1int
    } else {
        0int
    } + 1) as u16)
    &&& forall|i: int|
        0 <= i < plan.rows@.len() ==> {
            &&& #[trigger] plan.rows@[i].kind == cs[i].0
            &&& plan.rows@[i].text@ == cs[i].1
            &&& plan.rows@[i].prefix@ == row_prefix(
                cs[i].0,
                old_side_count(ks, i) + 1,
                new_side_count(ks, i) + 1,
            )
        }
}

/// The header line of a diff.
pub fn diff_header(path: &str) -> (r: String)
    ensures
        r@ == "  diff  "@ + path@,
{
    let mut r = String::from_str("  diff  ");
    r.append(path);
    r
}

/// The note that ends a cut diff.
pub fn omitted_note(omitted: usize) -> (r: String)
    ensures
        r@ == "  … "@ + digits_of(omitted as nat) + " lines omitted"@,
{
    let mut r = String::from_str("  … ");
    push_decimal(&mut r, omitted as u64);
    r.append(" lines omitted");
    r
}

/// A highlighted piece of a line as it is printed: without its trailing line
/// endings, and nothing when that leaves it empty.
pub open spec fn trim_newlines_end(s: Seq<char>) -> Seq<char>
    decreases s.len(),
{
    if s.len() > 0 && s.last() == '\n' {
        trim_newlines_end(s.drop_last())
    } else {
        s
    }
}

pub fn printable_piece(text: &str) -> (r: Option<String>)
    ensures
        trim_newlines_end(text@).len() == 0 ==> r is None,
        trim_newlines_end(text@).len() > 0 ==> (r matches Some(t) && t@ == trim_newlines_end(text@)),
{
    let n = text.unicode_len();
    let cs = crate::text::chars_of(text);
    let mut k: usize = n;
    assert(text@.take(n as int) =~= text@);
    while k > 0 && cs[k - 1] == '\n'
        invariant
            k <= n == cs@.len(),
            cs@ == text@,
            trim_newlines_end(text@) == trim_newlines_end(text@.take(k as int)),
        decreases k,
    {
        assert(text@.take(k as int).drop_last() =~= text@.take(k - 1));
        k = k - 1;
    }
    assert(trim_newlines_end(text@.take(k as int)) == text@.take(k as int));
    if k == 0 {
        None
    } else {
        Some(text.substring_char(0, k).to_owned())
    }
}

/// A highlighting colour as the terminal gets it: none when fully
/// transparent, the red, green and blue parts otherwise.
pub open spec fn visible_rgb(r: u8, g: u8, b: u8, a: u8) -> Option<(u8, u8, u8)> {
    if a == 0 {
        None
    } else {
        Some((r, g, b))
    }
}

pub fn visible_color(r: u8, g: u8, b: u8, a: u8) -> (c: Option<(u8, u8, u8)>)
    ensures
        c == visible_rgb(r, g, b, a),
{
    if a == 0 {
        None
    } else {
        Some((r, g, b))
    }
}

} // verus!
