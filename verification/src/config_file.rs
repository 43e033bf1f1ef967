//! The settings file, `~/.config/axon/config.toml`.
//!
//! The file is read line by line in the part of TOML that it needs: blank
//! lines and lines starting with `#` are skipped, a line `[name]` opens a
//! section, and a line `key = "value"` sets a key of the current section,
//! with anything after the closing quote (a comment) ignored. Values are
//! basic strings without escapes. `base_url` and `model` are read under
//! `[backend]`; `tool_approval` (`allow`, `ask` or `deny`) at the top of the
//! file or under `[backend]`. Other lines and keys, and unknown modes, are
//! ignored.
use vstd::prelude::*;

use crate::config::ToolApproval;
use crate::text::{chars_of, split_lines, split_newlines, trim, trim_of, views};
use crate::tools::{arg_view, same_text};

verus! {

/// What the settings file sets; `None` where it sets nothing.
pub struct ConfigFile {
    pub base_url: Option<String>,
    pub model: Option<String>,
    pub tool_approval: Option<ToolApproval>,
}

/// Where reading the file has got to: the current section and what has
/// been set so far.
pub struct FileView {
    pub section: Seq<char>,
    pub base_url: Option<Seq<char>>,
    pub model: Option<Seq<char>>,
    pub tool_approval: Option<ToolApproval>,
}

/// The index of the first `c` in `s`, if any.
pub open spec fn char_index(s: Seq<char>, c: char) -> Option<int>
    decreases s.len(),
{
    if s.len() == 0 {
        None
    } else if s[0] == c {
        Some(0)
    } else {
        match char_index(s.drop_first(), c) {
            Some(k) => Some(k + 1),
            None => None,
        }
    }
}

/// The value of a quoted string at the start of `s`: what stands between
/// the opening quote and the next one.
pub open spec fn quoted(s: Seq<char>) -> Option<Seq<char>> {
    if s.len() > 0 && s[0] == '"' {
        match char_index(s.drop_first(), '"') {
            Some(j) => Some(s.drop_first().take(j)),
            None => None,
        }
    } else {
        None
    }
}

/// The approval mode a value names.
pub open spec fn approval_named(v: Seq<char>) -> Option<ToolApproval> {
    if v == "allow"@ {
        Some(ToolApproval::Allow)
    } else if v == "ask"@ {
        Some(ToolApproval::Ask)
    } else if v == "deny"@ {
        Some(ToolApproval::Deny)
    } else {
        None
    }
}

/// The state after `key = "v"` in the current section.
pub open spec fn assigned(st: FileView, key: Seq<char>, v: Seq<char>) -> FileView {
    if st.section == "backend"@ && key == "base_url"@ {
        FileView { base_url: Some(v), ..st }
    } else if st.section == "backend"@ && key == "model"@ {
        FileView { model: Some(v), ..st }
    } else if key == "tool_approval"@ && (st.section.len() == 0 || st.section == "backend"@) {
        match approval_named(v) {
            Some(a) => FileView { tool_approval: Some(a), ..st },
            None => st,
        }
    } else {
        st
    }
}

/// The state after one line of the file.
pub open spec fn after_line(st: FileView, line: Seq<char>) -> FileView {
    let t = trim_of(line);
    if t.len() == 0 || t[0] == '#' {
        st
    } else if t[0] == '[' {
        if t.len() >= 2 && t.last() == ']' {
            FileView { section: trim_of(t.subrange(1, t.len() - 1)), ..st }
        } else {
            st
        }
    } else {
        match char_index(t, '=') {
            None => st,
            Some(k) => match quoted(trim_of(t.skip(k + 1))) {
                None => st,
                Some(v) => assigned(st, trim_of(t.take(k)), v),
            },
        }
    }
}

/// The state after the given lines, read from the top of the file.
pub open spec fn after_lines(lines: Seq<Seq<char>>) -> FileView
    decreases lines.len(),
{
    if lines.len() == 0 {
        FileView { section: Seq::empty(), base_url: None, model: None, tool_approval: None }
    } else {
        after_line(after_lines(lines.drop_last()), lines.last())
    }
}

proof fn lemma_char_index_in_range(s: Seq<char>, c: char)
    ensures
        char_index(s, c) matches Some(k) ==> 0 <= k < s.len() && s[k] == c,
    decreases s.len(),
{
    if s.len() > 0 {
        lemma_char_index_in_range(s.drop_first(), c);
    }
}

/// A blank line or a comment changes nothing, not even the section: the
/// keys after it still belong to the section opened above it.
pub proof fn lemma_blank_or_comment_keeps_state(st: FileView, line: Seq<char>)
    requires
        trim_of(line).len() == 0 || trim_of(line)[0] == '#',
    ensures
        after_line(st, line) == st,
{
}

/// Putting a blank line or a comment anywhere in a file changes nothing
/// that the file sets.
pub proof fn lemma_blank_line_anywhere(a: Seq<Seq<char>>, line: Seq<char>, b: Seq<Seq<char>>)
    requires
        trim_of(line).len() == 0 || trim_of(line)[0] == '#',
    ensures
        after_lines(a + seq![line] + b) == after_lines(a + b),
    decreases b.len(),
{
    if b.len() == 0 {
        assert(a + seq![line] + b =~= a.push(line));
        assert(a.push(line).drop_last() =~= a);
        assert(a + b =~= a);
    } else {
        lemma_blank_line_anywhere(a, line, b.drop_last());
        assert((a + seq![line] + b).drop_last() =~= a + seq![line] + b.drop_last());
        assert((a + b).drop_last() =~= a + b.drop_last());
        assert((a + seq![line] + b).last() == b.last());
        assert((a + b).last() == b.last());
    }
}

/// What a settings file with this text sets.
pub open spec fn file_settings(text: Seq<char>) -> FileView {
    after_lines(split_newlines(text))
}

/// An empty settings file sets nothing.
pub proof fn lemma_empty_file_sets_nothing()
    ensures
        file_settings(Seq::empty()).base_url is None,
        file_settings(Seq::empty()).model is None,
        file_settings(Seq::empty()).tool_approval is None,
{
    let e = Seq::<char>::empty();
    let lines = split_newlines(e);
    assert(lines =~= seq![e]);
    assert(lines.drop_last() =~= Seq::<Seq<char>>::empty());
    assert(trim_of(e) =~= e);
    let init = after_lines(lines.drop_last());
    assert(after_line(init, e) == init);
    assert(file_settings(e) == after_line(init, lines.last()));
}

/// The index of the first `c` in `s`, if any.
fn find_char(s: &str, c: char) -> (r: Option<usize>)
    ensures
        match r {
            Some(k) => char_index(s@, c) == Some(k as int) && k < s@.len(),
            None => char_index(s@, c) is None,
        },
{
    proof {
        lemma_char_index_in_range(s@, c);
    }
    let cs = chars_of(s);
    let n = cs.len();
    let mut i: usize = 0;
    assert(s@.subrange(0, n as int) =~= s@);
    while i < n
        invariant
            i <= n == cs@.len(),
            cs@ == s@,
            char_index(s@, c) == match char_index(s@.subrange(i as int, n as int), c) {
                Some(k) => Some(k + i),
                None => None::<int>,
            },
        decreases n - i,
    {
        assert(s@.subrange(i as int, n as int).drop_first() =~= s@.subrange(i + 1, n as int));
        if cs[i] == c {
            return Some(i);
        }
        i = i + 1;
    }
    None
}

/// The value of a quoted string at the start of `s`.
fn quoted_value(s: &str) -> (r: Option<String>)
    ensures
        arg_view(r) == quoted(s@),
{
    let n = s.unicode_len();
    if n == 0 || s.get_char(0) != '"' {
        return None;
    }
    let rest = s.substring_char(1, n);
    assert(rest@ =~= s@.drop_first());
    match find_char(rest, '"') {
        Some(j) => Some(rest.substring_char(0, j).to_owned()),
        None => None,
    }
}

fn approval_value(v: &str) -> (r: Option<ToolApproval>)
    ensures
        r == approval_named(v@),
{
    if same_text(v, "allow") {
        Some(ToolApproval::Allow)
    } else if same_text(v, "ask") {
        Some(ToolApproval::Ask)
    } else if same_text(v, "deny") {
        Some(ToolApproval::Deny)
    } else {
        None
    }
}

/// The reader's state: the current section and what has been set.
struct Reader {
    section: String,
    file: ConfigFile,
}

impl Reader {
    spec fn view(self) -> FileView {
        FileView {
            section: self.section@,
            base_url: arg_view(self.file.base_url),
            model: arg_view(self.file.model),
            tool_approval: self.file.tool_approval,
        }
    }

    fn assign(&mut self, key: &str, v: String)
        ensures
            final(self).view() == assigned(old(self).view(), key@, v@),
    {
        let backend = same_text(self.section.as_str(), "backend");
        if backend && same_text(key, "base_url") {
            self.file.base_url = Some(v);
        } else if backend && same_text(key, "model") {
            self.file.model = Some(v);
        } else if same_text(key, "tool_approval") && (self.section.as_str().unicode_len() == 0
            || backend) {
            match approval_value(v.as_str()) {
                Some(a) => {
                    self.file.tool_approval = Some(a);
                },
                None => {},
            }
        }
    }

    fn read_line(&mut self, line: &str)
        ensures
            final(self).view() == after_line(old(self).view(), line@),
    {
        let t = trim(line);
        let t = t.as_str();
        let n = t.unicode_len();
        if n == 0 || t.get_char(0) == '#' {
            return;
        }
        if t.get_char(0) == '[' {
            if n >= 2 && t.get_char(n - 1) == ']' {
                self.section = trim(t.substring_char(1, n - 1));
            }
            return;
        }
        match find_char(t, '=') {
            None => {},
            Some(k) => {
                let rest = trim(t.substring_char(k + 1, n));
                assert(t@.subrange(k + 1, n as int) =~= t@.skip(k + 1));
                match quoted_value(rest.as_str()) {
                    None => {},
                    Some(v) => {
                        let key = trim(t.substring_char(0, k));
                        assert(t@.subrange(0, k as int) =~= t@.take(k as int));
                        self.assign(key.as_str(), v);
                    },
                }
            },
        }
    }
}

/// Reads the settings file's text.
pub fn parse_config_file(text: &str) -> (f: ConfigFile)
    ensures
        arg_view(f.base_url) == file_settings(text@).base_url,
        arg_view(f.model) == file_settings(text@).model,
        f.tool_approval == file_settings(text@).tool_approval,
{
    let lines = split_lines(text);
    let mut reader = Reader {
        section: String::new(),
        file: ConfigFile { base_url: None, model: None, tool_approval: None },
    };
    let mut i: usize = 0;
    assert(views(lines@).take(0) =~= Seq::<Seq<char>>::empty());
    assert(reader.view() == after_lines(views(lines@).take(0)));
    while i < lines.len()
        invariant
            i <= lines@.len(),
            views(lines@) == split_newlines(text@),
            reader.view() == after_lines(views(lines@).take(i as int)),
        decreases lines@.len() - i,
    {
        assert(views(lines@).take(i + 1).drop_last() =~= views(lines@).take(i as int));
        reader.read_line(lines[i].as_str());
        i = i + 1;
    }
    assert(views(lines@).take(lines@.len() as int) =~= views(lines@));
    reader.file
}

} // verus!
