use vstd::prelude::*;
use vstd::utf8::*;

verus! {

broadcast use vstd::string::group_string_axioms;

/// The largest index `<= max` at which the byte string can be cut between
/// two characters (0 when none above 0 is).
pub open spec fn char_floor(bytes: Seq<u8>, max: int) -> int
    decreases max,
{
    if max <= 0 {
        0
    } else if is_char_boundary(bytes, max) {
        max
    } else {
        char_floor(bytes, max - 1)
    }
}

/// `char_floor` is a character boundary, at most `max`, and no boundary up to
/// `max` lies above it.
pub proof fn lemma_char_floor(bytes: Seq<u8>, max: int)
    requires
        valid_utf8(bytes),
        0 <= max,
    ensures
        0 <= char_floor(bytes, max) <= max,
        is_char_boundary(bytes, char_floor(bytes, max)),
        forall|k: int| #![trigger is_char_boundary(bytes, k)]
            char_floor(bytes, max) < k <= max ==> !is_char_boundary(bytes, k),
    decreases max,
{
    broadcast use vstd::utf8::is_char_boundary_start_end_of_seq;

    if max > 0 && !is_char_boundary(bytes, max) {
        lemma_char_floor(bytes, max - 1);
    }
}

/// The contents of a sequence of strings.
pub open spec fn views(v: Seq<String>) -> Seq<Seq<char>> {
    v.map_values(|s: String| s@)
}

/// `s` cut at every `'\n'`: the pieces between the newlines, in order, the
/// first before the first newline and the last after the last one. A text
/// with `k` newlines has `k + 1` pieces; the empty text has one, empty.
pub open spec fn split_newlines(s: Seq<char>) -> Seq<Seq<char>>
    decreases s.len(),
{
    if s.len() == 0 {
        seq![Seq::<char>::empty()]
    } else {
        let rest = split_newlines(s.drop_last());
        if s.last() == '\n' {
            rest.push(Seq::<char>::empty())
        } else {
            rest.update(rest.len() - 1, rest.last().push(s.last()))
        }
    }
}

/// The pieces put back together with a `'\n'` between each two.
pub open spec fn join_newlines(parts: Seq<Seq<char>>) -> Seq<char>
    decreases parts.len(),
{
    if parts.len() == 0 {
        Seq::<char>::empty()
    } else if parts.len() == 1 {
        parts[0]
    } else {
        join_newlines(parts.drop_last()) + seq!['\n'] + parts.last()
    }
}

pub proof fn lemma_split_nonempty(s: Seq<char>)
    ensures
        split_newlines(s).len() >= 1,
    decreases s.len(),
{
    if s.len() > 0 {
        lemma_split_nonempty(s.drop_last());
    }
}

/// Splitting at newlines loses nothing: joining the pieces with newlines
/// gives back the text, and no piece holds a newline.
pub proof fn lemma_split_join(s: Seq<char>)
    ensures
        join_newlines(split_newlines(s)) == s,
        forall|i: int, j: int|
            0 <= i < split_newlines(s).len() && 0 <= j < split_newlines(s)[i].len()
                ==> split_newlines(s)[i][j] != '\n',
    decreases s.len(),
{
    if s.len() > 0 {
        let t = s.drop_last();
        lemma_split_join(t);
        lemma_split_nonempty(t);
        let rest = split_newlines(t);
        if s.last() == '\n' {
            assert(rest.push(Seq::<char>::empty()).drop_last() =~= rest);
            assert(join_newlines(split_newlines(s)) =~= s);
        } else {
            let upd = rest.update(rest.len() - 1, rest.last().push(s.last()));
            if rest.len() == 1 {
                assert(join_newlines(upd) =~= s);
            } else {
                assert(upd.drop_last() =~= rest.drop_last());
                assert(join_newlines(rest) == join_newlines(rest.drop_last()) + seq!['\n']
                    + rest.last());
                assert(join_newlines(upd) == join_newlines(rest.drop_last()) + seq!['\n']
                    + rest.last().push(s.last()));
                assert(s =~= t.push(s.last()));
                assert(join_newlines(upd) =~= s);
            }
            assert forall|i: int, j: int|
                0 <= i < upd.len() && 0 <= j < upd[i].len() implies upd[i][j] != '\n' by {
                if i == rest.len() - 1 && j == rest.last().len() {
                } else {
                }
            }
        }
    }
}

/// How many newlines `s` holds.
pub open spec fn newline_count(s: Seq<char>) -> nat
    decreases s.len(),
{
    if s.len() == 0 {
        0
    } else {
        newline_count(s.drop_last()) + if s.last() == '\n' {
            1nat
        } else {
            0nat
        }
    }
}

/// A text with `k` newlines splits into `k + 1` pieces.
pub proof fn lemma_split_count(s: Seq<char>)
    ensures
        split_newlines(s).len() == newline_count(s) + 1,
    decreases s.len(),
{
    if s.len() > 0 {
        lemma_split_count(s.drop_last());
    }
}

/// The characters of `s`, in order.
pub fn chars_of(s: &str) -> (v: Vec<char>)
    ensures
        v@ == s@,
{
    let mut v: Vec<char> = Vec::new();
    for c in it: s.chars()
        invariant
            v@ == it.seq().take(it.index()),
    {
        v.push(c);
    }
    assert(v@ =~= s@);
    v
}

/// The pieces of `text` between its newlines, as `str::split('\n')` gives them.
pub fn split_lines(text: &str) -> (parts: Vec<String>)
    ensures
        views(parts@) == split_newlines(text@),
{
    let cs = chars_of(text);
    let n = cs.len();
    let mut parts: Vec<String> = Vec::new();
    let mut start: usize = 0;
    let mut i: usize = 0;
    assert(text@.take(0) =~= Seq::<char>::empty());
    assert(views(parts@) + seq![text@.subrange(0, 0)] =~= split_newlines(text@.take(0)));
    while i < n
        invariant
            n == cs@.len(),
            cs@ == text@,
            start <= i <= n,
            views(parts@) + seq![text@.subrange(start as int, i as int)] == split_newlines(
                text@.take(i as int),
            ),
        decreases n - i,
    {
        let ghost before = parts@;
        assert(text@.take(i + 1).drop_last() =~= text@.take(i as int));
        proof {
            lemma_split_nonempty(text@.take(i as int));
        }
        if cs[i] == '\n' {
            let ghost old_start = start;
            let piece = text.substring_char(start, i).to_owned();
            parts.push(piece);
            start = i + 1;
            assert(views(parts@) =~= views(before).push(text@.subrange(old_start as int, i as int)));
            assert(text@.take(i + 1).last() == '\n');
            assert(split_newlines(text@.take(i + 1)) == split_newlines(text@.take(i as int)).push(
                Seq::<char>::empty(),
            ));
            assert(text@.subrange(start as int, (i + 1) as int) =~= Seq::<char>::empty());
            assert(views(parts@) + seq![text@.subrange(start as int, (i + 1) as int)]
                =~= split_newlines(text@.take((i + 1) as int)));
        } else {
            assert(text@.subrange(start as int, (i + 1) as int) =~= text@.subrange(
                start as int,
                i as int,
            ).push(cs@[i as int]));
            assert(views(parts@) + seq![text@.subrange(start as int, (i + 1) as int)]
                =~= split_newlines(text@.take((i + 1) as int)));
        }
        i = i + 1;
    }
    let last = text.substring_char(start, n).to_owned();
    let ghost before = parts@;
    parts.push(last);
    assert(text@.take(n as int) =~= text@);
    assert(views(parts@) =~= views(before).push(last@));
    parts
}

/// `s` cut to at most `max_bytes` bytes of UTF-8, at the last character
/// boundary that fits.
pub open spec fn truncate_chars(s: Seq<char>, max_bytes: int) -> Seq<char> {
    if encode_utf8(s).len() <= max_bytes {
        s
    } else {
        decode_utf8(encode_utf8(s).subrange(0, char_floor(encode_utf8(s), max_bytes)))
    }
}

/// `s` cut to at most `max_bytes` bytes, at the last character boundary
/// that fits; `s` itself when it fits whole.
pub fn truncate(s: &str, max_bytes: usize) -> (r: &str)
    requires
        encode_utf8(s@).len() <= usize::MAX,
    ensures
        encode_utf8(s@).len() <= max_bytes ==> r@ == s@,
        encode_utf8(s@).len() > max_bytes ==> encode_utf8(r@) == encode_utf8(s@).subrange(
            0,
            char_floor(encode_utf8(s@), max_bytes as int),
        ),
        r@ == truncate_chars(s@, max_bytes as int),
        r@ == s@.take(r@.len() as int),
{
    broadcast use vstd::utf8::encode_utf8_valid_utf8, vstd::utf8::encode_utf8_decode_utf8;

    if s.len() <= max_bytes {
        s
    } else {
        let ghost bytes = encode_utf8(s@);
        proof {
            lemma_char_floor(bytes, max_bytes as int);
        }
        let mut idx = max_bytes;
        while !s.is_char_boundary(idx)
            invariant
                bytes == encode_utf8(s@),
                valid_utf8(bytes),
                idx <= max_bytes < bytes.len(),
                char_floor(bytes, idx as int) == char_floor(bytes, max_bytes as int),
                0 <= char_floor(bytes, max_bytes as int) <= idx,
                is_char_boundary(bytes, char_floor(bytes, max_bytes as int)),
            decreases idx,
        {
            idx = idx - 1;
        }
        assert(char_floor(bytes, idx as int) == idx);
        let (r, _) = s.split_at(idx);
        assert(encode_utf8(r@) =~= bytes.subrange(0, idx as int));
        proof {
            decode_utf8_split(bytes, idx as int);
            assert(r@ == decode_utf8(encode_utf8(r@)));
        }
        r
    }
}

/// The text before the first newline of `s`; all of `s` when it has none.
pub open spec fn before_newline(s: Seq<char>) -> Seq<char>
    decreases s.len(),
{
    if s.len() == 0 || s[0] == '\n' {
        Seq::<char>::empty()
    } else {
        seq![s[0]] + before_newline(s.drop_first())
    }
}

/// The first line of `s` as `str::lines` gives it: the text before the
/// first newline, without the `'\r'` of a `"\r\n"` ending; empty for an
/// empty text.
pub open spec fn first_line_of(s: Seq<char>) -> Seq<char> {
    let h = before_newline(s);
    if s.contains('\n') && h.len() > 0 && h.last() == '\r' {
        h.drop_last()
    } else {
        h
    }
}

pub proof fn lemma_before_newline(s: Seq<char>, k: int)
    requires
        0 <= k <= s.len(),
        forall|j: int| 0 <= j < k ==> s[j] != '\n',
        k == s.len() || s[k] == '\n',
    ensures
        before_newline(s) == s.take(k),
        s.contains('\n') <==> k < s.len(),
    decreases k,
{
    if k > 0 {
        let t = s.drop_first();
        assert forall|j: int| 0 <= j < k - 1 implies t[j] != '\n' by {
            assert(t[j] == s[j + 1]);
        }
        lemma_before_newline(t, k - 1);
        assert(before_newline(s) =~= s.take(k));
    } else {
        assert(before_newline(s) =~= s.take(k));
    }
    if k < s.len() {
        assert(s[k] == '\n');
    }
}

/// The index of the first newline in `cs`, or its length when it has none.
fn first_newline(cs: &Vec<char>) -> (k: usize)
    ensures
        k <= cs@.len(),
        forall|j: int| 0 <= j < k ==> cs@[j] != '\n',
        k == cs@.len() || cs@[k as int] == '\n',
{
    let mut k: usize = 0;
    while k < cs.len() && cs[k] != '\n'
        invariant
            k <= cs@.len(),
            forall|j: int| 0 <= j < k ==> cs@[j] != '\n',
        decreases cs@.len() - k,
    {
        k = k + 1;
    }
    k
}

/// The first line of `content`, as `content.lines().next().unwrap_or("")`.
pub fn first_line(content: &str) -> (r: String)
    ensures
        r@ == first_line_of(content@),
{
    let cs = chars_of(content);
    let k = first_newline(&cs);
    proof {
        lemma_before_newline(content@, k as int);
    }
    if k < cs.len() && k > 0 && cs[k - 1] == '\r' {
        let r = content.substring_char(0, k - 1).to_owned();
        assert(r@ =~= first_line_of(content@));
        r
    } else {
        let r = content.substring_char(0, k).to_owned();
        assert(r@ =~= first_line_of(content@));
        r
    }
}

/// UTF-8 encoding maps concatenation to concatenation.
pub proof fn lemma_encode_concat(a: Seq<char>, b: Seq<char>)
    ensures
        encode_utf8(a + b) == encode_utf8(a) + encode_utf8(b),
    decreases a.len(),
{
    if a.len() > 0 {
        lemma_encode_concat(a.drop_first(), b);
        assert((a + b).drop_first() =~= a.drop_first() + b);
        assert(encode_utf8(a + b) =~= encode_utf8(a) + encode_utf8(b));
    } else {
        assert(a + b =~= b);
    }
}

/// A prefix of a text takes no more bytes than the text.
pub proof fn lemma_prefix_bytes(s: Seq<char>, k: int)
    requires
        0 <= k <= s.len(),
    ensures
        encode_utf8(s.take(k)).len() <= encode_utf8(s).len(),
{
    lemma_encode_concat(s.take(k), s.skip(k));
    assert(s.take(k) + s.skip(k) =~= s);
}

/// The first line of a text is a prefix of it.
pub proof fn lemma_first_line_shorter(s: Seq<char>)
    ensures
        first_line_of(s) == s.take(first_line_of(s).len() as int),
        first_line_of(s).len() <= s.len(),
        encode_utf8(first_line_of(s)).len() <= encode_utf8(s).len(),
{
    lemma_before_newline_prefix(s);
    let h = before_newline(s);
    if s.contains('\n') && h.len() > 0 && h.last() == '\r' {
        assert(h.drop_last() =~= s.take(h.len() - 1));
    }
    lemma_prefix_bytes(s, first_line_of(s).len() as int);
}

pub proof fn lemma_before_newline_prefix(s: Seq<char>)
    ensures
        before_newline(s) == s.take(before_newline(s).len() as int),
        before_newline(s).len() <= s.len(),
    decreases s.len(),
{
    if s.len() > 0 && s[0] != '\n' {
        lemma_before_newline_prefix(s.drop_first());
        assert(before_newline(s) =~= s.take(before_newline(s).len() as int));
    }
}

/// Whether `s` holds a newline.
pub fn has_newline(s: &str) -> (b: bool)
    ensures
        b == s@.contains('\n'),
{
    let cs = chars_of(s);
    let k = first_newline(&cs);
    proof {
        lemma_before_newline(s@, k as int);
    }
    k < cs.len()
}

/// Unicode's `White_Space` characters, the whitespace of `str::trim`.
pub open spec fn is_white_space(c: char) -> bool {
    let u = c as u32;
    ||| 0x09 <= u <= 0x0d
    ||| u == 0x20
    ||| u == 0x85
    ||| u == 0xa0
    ||| u == 0x1680
    ||| 0x2000 <= u <= 0x200a
    ||| u == 0x2028
    ||| u == 0x2029
    ||| u == 0x202f
    ||| u == 0x205f
    ||| u == 0x3000
}

pub fn white_space(c: char) -> (b: bool)
    ensures
        b == is_white_space(c),
{
    let u = c as u32;
    (0x09 <= u && u <= 0x0d) || u == 0x20 || u == 0x85 || u == 0xa0 || u == 0x1680 || (0x2000 <= u
        && u <= 0x200a) || u == 0x2028 || u == 0x2029 || u == 0x202f || u == 0x205f || u == 0x3000
}

/// `s` without its leading whitespace.
pub open spec fn trim_start_of(s: Seq<char>) -> Seq<char>
    decreases s.len(),
{
    if s.len() > 0 && is_white_space(s[0]) {
        trim_start_of(s.drop_first())
    } else {
        s
    }
}

/// `s` without its trailing whitespace.
pub open spec fn trim_end_of(s: Seq<char>) -> Seq<char>
    decreases s.len(),
{
    if s.len() > 0 && is_white_space(s.last()) {
        trim_end_of(s.drop_last())
    } else {
        s
    }
}

/// `s` without leading and trailing whitespace, as `str::trim` gives it.
pub open spec fn trim_of(s: Seq<char>) -> Seq<char> {
    trim_end_of(trim_start_of(s))
}

pub fn trim(s: &str) -> (r: String)
    ensures
        r@ == trim_of(s@),
{
    let cs = chars_of(s);
    let n = cs.len();
    let mut a: usize = 0;
    assert(s@.skip(0) =~= s@);
    while a < n && white_space(cs[a])
        invariant
            a <= n == cs@.len(),
            cs@ == s@,
            trim_start_of(s@) == trim_start_of(s@.skip(a as int)),
        decreases n - a,
    {
        assert(s@.skip(a as int).drop_first() =~= s@.skip(a + 1));
        a = a + 1;
    }
    assert(trim_start_of(s@.skip(a as int)) == s@.skip(a as int));
    assert(s@.skip(a as int) =~= s@.subrange(a as int, n as int));
    let mut b: usize = n;
    while b > a && white_space(cs[b - 1])
        invariant
            a <= b <= n == cs@.len(),
            cs@ == s@,
            trim_of(s@) == trim_end_of(s@.subrange(a as int, b as int)),
        decreases b,
    {
        assert(s@.subrange(a as int, b as int).drop_last() =~= s@.subrange(a as int, b - 1));
        b = b - 1;
    }
    assert(trim_end_of(s@.subrange(a as int, b as int)) == s@.subrange(a as int, b as int));
    s.substring_char(a, b).to_owned()
}

/// Calls `String::push`, which appends `c` to the end of the string.
#[verifier::external_body]
pub(crate) fn push_char(s: &mut String, c: char)
    ensures
        final(s)@ == old(s)@.push(c),
{
    s.push(c);
}

/// Removes the last character of `s` and returns it, or returns `None` and
/// leaves `s` alone when it is empty, as `String::pop` does.
pub(crate) fn pop_char(s: &mut String) -> (r: Option<char>)
    ensures
        old(s)@.len() == 0 ==> r is None && final(s)@ == old(s)@,
        old(s)@.len() > 0 ==> r == Some(old(s)@.last()) && final(s)@ == old(s)@.drop_last(),
{
    let n = s.as_str().unicode_len();
    if n == 0 {
        return None;
    }
    let c = s.as_str().get_char(n - 1);
    let rest = s.as_str().substring_char(0, n - 1).to_owned();
    *s = rest;
    Some(c)
}

/// Where shown text is cut, in bytes.
pub const TRUNCATE_AT: usize = 120;

/// The shown tail of a tool-result line: two spaces, the first line of the
/// result cut to `TRUNCATE_AT` bytes, and `" …"` when anything was left out
/// (a second line, or more than `TRUNCATE_AT` bytes in all).
pub open spec fn tool_result_summary_of(content: Seq<char>) -> Seq<char> {
    "  "@ + truncate_chars(first_line_of(content), TRUNCATE_AT as int) + if content.contains('\n')
        || encode_utf8(content).len() > TRUNCATE_AT {
        " …"@
    } else {
        ""@
    }
}

/// The shown tail of a tool-call line: two spaces and the arguments cut to
/// `TRUNCATE_AT` bytes.
pub open spec fn tool_call_summary_of(args: Seq<char>) -> Seq<char> {
    "  "@ + truncate_chars(args, TRUNCATE_AT as int)
}

pub fn tool_result_summary(content: &str) -> (r: String)
    requires
        encode_utf8(content@).len() <= usize::MAX,
    ensures
        r@ == tool_result_summary_of(content@),
{
    let first = first_line(content);
    proof {
        lemma_first_line_shorter(content@);
    }
    let cut = truncate(first.as_str(), TRUNCATE_AT);
    let mut r = String::from_str("  ");
    r.append(cut);
    if has_newline(content) || content.len() > TRUNCATE_AT {
        r.append(" …");
    } else {
        r.append("");
    }
    r
}

pub fn tool_call_summary(args: &str) -> (r: String)
    requires
        encode_utf8(args@).len() <= usize::MAX,
    ensures
        r@ == tool_call_summary_of(args@),
{
    let cut = truncate(args, TRUNCATE_AT);
    let mut r = String::from_str("  ");
    r.append(cut);
    r
}

} // verus!
