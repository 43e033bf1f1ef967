//! Putting a streamed chat completion together.
//!
//! The text of a reply is passed on piece by piece as it arrives. Tool calls
//! arrive as fragments tagged by the call's index; they are gathered while the
//! stream runs and handed on, in index order, once it ends.
use vstd::prelude::*;

use std::collections::HashMap;
use vstd::std_specs::iter::IteratorSpec;

use crate::event::{AppEvent, is_tool_call};

verus! {

broadcast use vstd::std_specs::hash::group_hash_axioms;

/// One fragment of a streamed tool call.
pub struct ToolCallDelta {
    pub index: u32,
    pub id: Option<String>,
    pub name: Option<String>,
    pub arguments: Option<String>,
}

/// What has been gathered of one tool call.
pub struct CallParts {
    pub id: Seq<char>,
    pub name: Seq<char>,
    pub args: Seq<char>,
}

pub open spec fn empty_parts() -> CallParts {
    CallParts { id: Seq::<char>::empty(), name: Seq::<char>::empty(), args: Seq::<char>::empty() }
}

/// A fragment applied to what was gathered: a given id or name replaces the
/// old one, argument text is appended to the old.
pub open spec fn apply_delta(p: CallParts, d: ToolCallDelta) -> CallParts {
    CallParts {
        id: match d.id {
            Some(s) => s@,
            None => p.id,
        },
        name: match d.name {
            Some(s) => s@,
            None => p.name,
        },
        args: match d.arguments {
            Some(s) => p.args + s@,
            None => p.args,
        },
    }
}

/// A tool call being gathered.
pub struct PendingCall {
    pub id: String,
    pub name: String,
    pub args: String,
}

impl PendingCall {
    pub open spec fn parts(self) -> CallParts {
        CallParts { id: self.id@, name: self.name@, args: self.args@ }
    }
}

/// Indices in strictly increasing order.
pub open spec fn increasing(s: Seq<u32>) -> bool {
    forall|i: int, j: int| 0 <= i < j < s.len() ==> s[i] < s[j]
}

/// The indices of the gathered calls `m`, in increasing order.
pub open spec fn index_order(m: Map<u32, CallParts>) -> Seq<u32> {
    choose|s: Seq<u32>| increasing(s) && s.to_set() == m.dom()
}

/// Two increasing sequences with the same elements are the same sequence.
proof fn lemma_increasing_unique(a: Seq<u32>, b: Seq<u32>)
    requires
        increasing(a),
        increasing(b),
        a.to_set() == b.to_set(),
    ensures
        a == b,
    decreases a.len(),
{
    if a.len() == 0 {
        if b.len() > 0 {
            assert(b.to_set().contains(b[0]));
        }
        assert(a =~= b);
    } else {
        assert(a.to_set().contains(a[0]));
        assert(b.len() > 0);
        assert(b.to_set().contains(b[0]));
        let j = choose|j: int| 0 <= j < b.len() && b[j] == a[0];
        let i = choose|i: int| 0 <= i < a.len() && a[i] == b[0];
        if i > 0 {
            assert(a[0] < a[i]);
        }
        if j > 0 {
            assert(b[0] < b[j]);
        }
        assert(a[0] == b[0]);
        let a1 = a.drop_first();
        let b1 = b.drop_first();
        assert forall|x: u32| a1.to_set().contains(x) implies b1.to_set().contains(x) by {
            let p = choose|p: int| 0 <= p < a1.len() && a1[p] == x;
            assert(a[0] < a[p + 1]);
            assert(b.to_set().contains(x));
            let q = choose|q: int| 0 <= q < b.len() && b[q] == x;
            assert(q != 0);
            assert(b1[q - 1] == x);
        }
        assert forall|x: u32| b1.to_set().contains(x) implies a1.to_set().contains(x) by {
            let p = choose|p: int| 0 <= p < b1.len() && b1[p] == x;
            assert(b[0] < b[p + 1]);
            assert(a.to_set().contains(x));
            let q = choose|q: int| 0 <= q < a.len() && a[q] == x;
            assert(q != 0);
            assert(a1[q - 1] == x);
        }
        assert(a1.to_set() =~= b1.to_set());
        lemma_increasing_unique(a1, b1);
        assert forall|k: int| 0 <= k < a.len() implies a[k] == b[k] by {
            if k > 0 {
                assert(a[k] == a1[k - 1]);
                assert(b[k] == b1[k - 1]);
            }
        }
        assert(a =~= b);
    }
}

/// The calls come out in increasing index order, each gathered index once.
pub proof fn lemma_index_order(m: Map<u32, CallParts>)
    requires
        m.dom().finite(),
    ensures
        increasing(index_order(m)),
        index_order(m).to_set() == m.dom(),
        index_order(m).len() == m.dom().len(),
{
    lemma_sorted_exists(m.dom());
    let s = index_order(m);
    assert(s.no_duplicates()) by {
        assert forall|i: int, j: int| 0 <= i < s.len() && 0 <= j < s.len() && i != j implies s[i]
            != s[j] by {
            if i < j {
                assert(s[i] < s[j]);
            } else {
                assert(s[j] < s[i]);
            }
        }
    }
    s.unique_seq_to_set();
}

/// Every finite set of indices has an increasing listing.
proof fn lemma_sorted_exists(d: Set<u32>)
    requires
        d.finite(),
    ensures
        exists|s: Seq<u32>| increasing(s) && s.to_set() == d,
    decreases d.len(),
{
    if d.len() == 0 {
        d.lemma_len0_is_empty();
        assert(Seq::<u32>::empty().to_set() =~= d);
    } else {
        let leq = |a: u32, b: u32| a <= b;
        assert(vstd::relations::total_ordering(leq)) by {
            assert(vstd::relations::reflexive(leq));
            assert(vstd::relations::antisymmetric(leq));
            assert(vstd::relations::transitive(leq));
            assert(vstd::relations::strongly_connected(leq));
        }
        let x = d.find_unique_maximal(leq);
        d.find_unique_maximal_ensures(leq);
        let rest = d.remove(x);
        lemma_sorted_exists(rest);
        let s = choose|s: Seq<u32>| increasing(s) && s.to_set() == rest;
        let t = s.push(x);
        assert forall|i: int| 0 <= i < s.len() implies #[trigger] s[i] < x by {
            assert(s.to_set().contains(s[i]));
            assert(rest.contains(s[i]));
            assert(leq(x, s[i]) ==> leq(s[i], x));
        }
        assert(increasing(t));
        assert forall|y: u32| t.to_set().contains(y) <==> d.contains(y) by {
            if d.contains(y) && y != x {
                assert(rest.contains(y));
                let p = choose|p: int| 0 <= p < s.len() && s[p] == y;
                assert(t[p] == y);
            }
            if y == x {
                assert(t[t.len() - 1] == x);
            }
            if t.to_set().contains(y) {
                let p = choose|p: int| 0 <= p < t.len() && t[p] == y;
                if p < s.len() {
                    assert(s.to_set().contains(y));
                }
            }
        }
        assert(t.to_set() =~= d);
    }
}

/// The tool calls of one streamed reply, gathered by index.
pub struct PendingToolCalls {
    calls: HashMap<u32, PendingCall>,
}

impl PendingToolCalls {
    /// What has been gathered, by index.
    pub closed spec fn gathered(self) -> Map<u32, CallParts> {
        self.calls@.map_values(|c: PendingCall| c.parts())
    }

    pub fn new() -> (r: Self)
        ensures
            r.gathered() == Map::<u32, CallParts>::empty(),
    {
        let r = PendingToolCalls { calls: HashMap::new() };
        assert(r.gathered() =~= Map::<u32, CallParts>::empty());
        r
    }

    /// Adds one fragment to the call with its index, starting that call when
    /// it is the first fragment of it.
    pub fn record(&mut self, d: ToolCallDelta)
        ensures
            final(self).gathered() == old(self).gathered().insert(
                d.index,
                apply_delta(
                    if old(self).gathered().contains_key(d.index) {
                        old(self).gathered()[d.index]
                    } else {
                        empty_parts()
                    },
                    d,
                ),
            ),
    {
        let ghost before = self.calls@;
        let mut e = match self.calls.remove(&d.index) {
            Some(e) => e,
            None => PendingCall { id: String::new(), name: String::new(), args: String::new() },
        };
        assert(e.parts() == if old(self).gathered().contains_key(d.index) {
            old(self).gathered()[d.index]
        } else {
            empty_parts()
        });
        match d.id {
            Some(s) => {
                e.id = s;
            },
            None => {},
        }
        match d.name {
            Some(s) => {
                e.name = s;
            },
            None => {},
        }
        match d.arguments {
            Some(s) => {
                e.args.append(s.as_str());
            },
            None => {},
        }
        self.calls.insert(d.index, e);
        assert(self.calls@ == before.insert(d.index, e));
        assert(self.gathered() =~= old(self).gathered().insert(d.index, e.parts()));
    }
}

/// The indices of `m`, in increasing order.
fn sorted_indices(m: &HashMap<u32, PendingCall>) -> (r: Vec<u32>)
    ensures
        increasing(r@),
        r@.to_set() == m@.dom(),
{
    let mut r: Vec<u32> = Vec::new();
    let ghost keys = m.keys().remaining().unref();
    assert(keys.to_set() == m@.dom());
    for k in it: m.keys()
        invariant
            it.seq().unref() == keys,
            increasing(r@),
            r@.to_set() == keys.take(it.index()).to_set(),
    {
        let k: u32 = *k;
        let ghost seen = keys.take(it.index());
        assert(keys.take(it.index() + 1) =~= seen.push(k));
        let n = r.len();
        let mut p: usize = 0;
        while p < n && r[p] < k
            invariant
                p <= n == r@.len(),
                forall|j: int| 0 <= j < p ==> r@[j] < k,
            decreases n - p,
        {
            p = p + 1;
        }
        if p < n && r[p] == k {
            assert(seen.push(k).to_set() =~= seen.to_set()) by {
                assert(r@.to_set().contains(k));
            }
        } else {
            let ghost old_r = r@;
            r.insert(p, k);
            assert(increasing(r@)) by {
                assert forall|i: int, j: int| 0 <= i < j < r@.len() implies r@[i] < r@[j] by {
                    if j < p {
                    } else if j == p {
                    } else if i < p {
                        assert(old_r[i] < k);
                        if p < j - 1 {
                            assert(old_r[p as int] < old_r[j - 1]);
                        }
                    } else if i == p {
                        if p < j - 1 {
                            assert(old_r[p as int] < old_r[j - 1]);
                        }
                    } else {
                        assert(old_r[i - 1] < old_r[j - 1]);
                    }
                }
            }
            assert forall|x: u32| r@.to_set().contains(x) <==> seen.push(k).to_set().contains(x) by {
                if r@.to_set().contains(x) {
                    let q = choose|q: int| 0 <= q < r@.len() && r@[q] == x;
                    if q < p {
                        assert(old_r.to_set().contains(x));
                    } else if q > p {
                        assert(old_r[q - 1] == x);
                        assert(old_r.to_set().contains(x));
                    } else {
                        assert(seen.push(k)[seen.len() as int] == x);
                    }
                }
                if seen.push(k).to_set().contains(x) {
                    let q = choose|q: int| 0 <= q < seen.len() + 1 && seen.push(k)[q] == x;
                    if q < seen.len() {
                        assert(seen.to_set().contains(x));
                        assert(old_r.to_set().contains(x));
                        let w = choose|w: int| 0 <= w < old_r.len() && old_r[w] == x;
                        if w < p {
                            assert(r@[w] == x);
                        } else {
                            assert(r@[w + 1] == x);
                        }
                    } else {
                        assert(r@[p as int] == x);
                    }
                }
            }
            assert(r@.to_set() =~= seen.push(k).to_set());
        }
    }
    assert(keys.take(keys.len() as int) =~= keys);
    r
}

/// A name for what `serde_json` makes of a text: the text parsed as a JSON
/// value and printed back in compact form; `None` when it is not JSON.
pub uninterp spec fn json_reprint(text: Seq<char>) -> Option<Seq<char>>;

pub open spec fn opt_view(o: Option<String>) -> Option<Seq<char>> {
    match o {
        Some(s) => Some(s@),
        None => None,
    }
}

/// Calls `serde_json::from_str::<serde_json::Value>` on `text` and prints a
/// parsed value with its `Display` impl (compact JSON). The contract claims
/// only that the result is a function of `text`, named `json_reprint`.
#[verifier::external_body]
fn reprint_json(text: &str) -> (r: Option<String>)
    ensures
        opt_view(r) == json_reprint(text@),
{
    match serde_json::from_str::<serde_json::Value>(text) {
        Ok(v) => Some(v.to_string()),
        Err(_) => None,
    }
}

/// The arguments a tool-call event carries: the compact reprint of the
/// gathered text, or `null` when that text is not JSON.
pub open spec fn event_args(reprinted: Option<Seq<char>>) -> Seq<char> {
    match reprinted {
        Some(t) => t,
        None => "null"@,
    }
}

/// The event for a gathered tool call, given what the JSON parser made of its
/// arguments.
pub fn tool_call_event(id: String, name: String, reprinted: Option<String>) -> (e: AppEvent)
    ensures
        is_tool_call(e, id@, name@, event_args(opt_view(reprinted))),
{
    let args = match reprinted {
        Some(t) => t,
        None => String::from_str("null"),
    };
    AppEvent::ToolCall { id, name, args }
}

/// The gathered tool calls as events, in increasing index order; arguments
/// that are not JSON become `null`.
pub fn assemble_tool_calls(pending: PendingToolCalls) -> (events: Vec<AppEvent>)
    ensures
        events@.len() == index_order(pending.gathered()).len(),
        forall|i: int|
            0 <= i < events@.len() ==> #[trigger] is_tool_call(
                events@[i],
                pending.gathered()[index_order(pending.gathered())[i]].id,
                pending.gathered()[index_order(pending.gathered())[i]].name,
                event_args(json_reprint(pending.gathered()[index_order(pending.gathered())[i]].args)),
            ),
{
    let ghost g = pending.gathered();
    let keys = sorted_indices(&pending.calls);
    proof {
        assert(g.dom() =~= pending.calls@.dom());
        lemma_increasing_unique(index_order(g), keys@);
    }
    let mut events: Vec<AppEvent> = Vec::new();
    let mut i: usize = 0;
    while i < keys.len()
        invariant
            i <= keys@.len(),
            keys@ == index_order(g),
            keys@.to_set() == pending.calls@.dom(),
            g == pending.gathered(),
            events@.len() == i,
            forall|j: int|
                0 <= j < i ==> #[trigger] is_tool_call(
                    events@[j],
                    g[keys@[j]].id,
                    g[keys@[j]].name,
                    event_args(json_reprint(g[keys@[j]].args)),
                ),
        decreases keys@.len() - i,
    {
        assert(keys@.to_set().contains(keys@[i as int]));
        match pending.calls.get(&keys[i]) {
            Some(c) => {
                let reprinted = reprint_json(c.args.as_str());
                let e = tool_call_event(c.id.clone(), c.name.clone(), reprinted);
                events.push(e);
            },
            None => {
                assert(false);
            },
        }
        i = i + 1;
    }
    events
}

/// What a sequence of fragments adds to what was gathered, one after another.
pub open spec fn gather(m: Map<u32, CallParts>, ds: Seq<ToolCallDelta>) -> Map<u32, CallParts>
    decreases ds.len(),
{
    if ds.len() == 0 {
        m
    } else {
        let m1 = gather(m, ds.drop_last());
        let d = ds.last();
        m1.insert(
            d.index,
            apply_delta(
                if m1.contains_key(d.index) {
                    m1[d.index]
                } else {
                    empty_parts()
                },
                d,
            ),
        )
    }
}

/// Gathering two runs of fragments one after the other is gathering them
/// joined: what the chunks of a stream bring adds up across chunks.
pub proof fn lemma_gather_concat(m: Map<u32, CallParts>, a: Seq<ToolCallDelta>, b: Seq<ToolCallDelta>)
    ensures
        gather(gather(m, a), b) == gather(m, a + b),
    decreases b.len(),
{
    if b.len() == 0 {
        assert(a + b =~= a);
    } else {
        lemma_gather_concat(m, a, b.drop_last());
        assert((a + b).drop_last() =~= a + b.drop_last());
        assert((a + b).last() == b.last());
    }
}

/// The argument text of the fragments with index `k`, in order.
pub open spec fn args_fragments(ds: Seq<ToolCallDelta>, k: u32) -> Seq<char>
    decreases ds.len(),
{
    if ds.len() == 0 {
        Seq::<char>::empty()
    } else {
        let d = ds.last();
        args_fragments(ds.drop_last(), k) + if d.index == k {
            match d.arguments {
                Some(a) => a@,
                None => Seq::<char>::empty(),
            }
        } else {
            Seq::<char>::empty()
        }
    }
}

/// Fragments gathered from nothing: a call is gathered for exactly the
/// indices that some fragment carries, and its arguments are the argument
/// fragments of that index joined in arrival order.
pub proof fn lemma_fragments_concatenate(ds: Seq<ToolCallDelta>, k: u32)
    ensures
        gather(Map::<u32, CallParts>::empty(), ds).contains_key(k) <==> exists|i: int|
            0 <= i < ds.len() && ds[i].index == k,
        gather(Map::<u32, CallParts>::empty(), ds).contains_key(k) ==> gather(
            Map::<u32, CallParts>::empty(),
            ds,
        )[k].args == args_fragments(ds, k),
    decreases ds.len(),
{
    if ds.len() > 0 {
        let t = ds.drop_last();
        lemma_fragments_concatenate(t, k);
        let m1 = gather(Map::<u32, CallParts>::empty(), t);
        if exists|i: int| 0 <= i < t.len() && t[i].index == k {
            let i = choose|i: int| 0 <= i < t.len() && t[i].index == k;
            assert(ds[i].index == k);
        }
        if exists|i: int| 0 <= i < ds.len() && ds[i].index == k {
            let i = choose|i: int| 0 <= i < ds.len() && ds[i].index == k;
            if i < ds.len() - 1 {
                assert(t[i].index == k);
            }
        }
        if ds.last().index == k && !m1.contains_key(k) {
            assert(args_fragments(t, k) =~= Seq::<char>::empty()) by {
                lemma_no_fragments(t, k);
            }
            assert(Seq::<char>::empty() + args_fragments(ds, k) =~= args_fragments(ds, k));
        }
        if ds.last().index == k && m1.contains_key(k) {
            assert(args_fragments(ds, k) =~= m1[k].args + match ds.last().arguments {
                Some(a) => a@,
                None => Seq::<char>::empty(),
            });
        }
        if ds.last().index != k {
            assert(args_fragments(ds, k) =~= args_fragments(t, k));
        }
    }
}

proof fn lemma_no_fragments(ds: Seq<ToolCallDelta>, k: u32)
    requires
        forall|i: int| 0 <= i < ds.len() ==> ds[i].index != k,
    ensures
        args_fragments(ds, k) == Seq::<char>::empty(),
    decreases ds.len(),
{
    if ds.len() > 0 {
        lemma_no_fragments(ds.drop_last(), k);
        assert(args_fragments(ds, k) =~= Seq::<char>::empty());
    }
}

/// The token event a choice's text gives: none for absent or empty text.
pub open spec fn token_for(content: Option<String>) -> Option<Seq<char>> {
    match content {
        Some(c) => if c@.len() > 0 {
            Some(c@)
        } else {
            None
        },
        None => None,
    }
}

/// Every piece of text that is not empty is passed on as it came,
/// whitespace-only pieces such as a line break included; only absent or
/// empty text gives no token.
pub proof fn lemma_nonempty_text_passed_on(c: String)
    ensures
        c@.len() > 0 ==> token_for(Some(c)) == Some(c@),
        c@.len() == 0 ==> token_for(Some(c)) is None,
        token_for(None) is None,
{
}

/// The state of one streamed reply: the tool calls gathered so far.
pub struct StreamAssembler {
    pending: PendingToolCalls,
}

impl StreamAssembler {
    /// The tool calls gathered so far, by index.
    pub closed spec fn gathered(self) -> Map<u32, CallParts> {
        self.pending.gathered()
    }

    pub fn new() -> (r: Self)
        ensures
            r.gathered() == Map::<u32, CallParts>::empty(),
    {
        StreamAssembler { pending: PendingToolCalls::new() }
    }

    /// Takes one choice of a streamed chunk: its text becomes a token event
    /// at once (when not empty); its tool-call fragments are gathered, in
    /// order.
    pub fn on_choice(&mut self, content: Option<String>, tool_calls: Vec<ToolCallDelta>) -> (token:
        Option<AppEvent>)
        ensures
            final(self).gathered() == gather(old(self).gathered(), tool_calls@),
            match token_for(content) {
                Some(t) => token matches Some(AppEvent::Token(s)) && s@ == t,
                None => token is None,
            },
            forall|c: String|
                content == Some(c) && c@.len() > 0 ==> (token matches Some(AppEvent::Token(s))
                    && s@ == c@),
            forall|c: String| content == Some(c) && c@.len() == 0 ==> token is None,
            content is None ==> token is None,
    {
        let token = match content {
            Some(c) => if !c.as_str().is_empty() {
                Some(AppEvent::Token(c))
            } else {
                None
            },
            None => None,
        };
        let ghost start = self.pending.gathered();
        let ghost ds = tool_calls@;
        for d in it: tool_calls
            invariant
                it.seq() == ds,
                self.pending.gathered() == gather(start, ds.take(it.index())),
        {
            assert(ds.take(it.index() + 1).drop_last() =~= ds.take(it.index()));
            self.pending.record(d);
        }
        assert(ds.take(ds.len() as int) =~= ds);
        token
    }

    /// The end of the stream: the gathered tool calls as events, in
    /// increasing index order, then `Done`.
    pub fn finish(self) -> (events: Vec<AppEvent>)
        ensures
            events@.len() == index_order(self.gathered()).len() + 1,
            events@.last() matches AppEvent::Done,
            forall|i: int|
                0 <= i < index_order(self.gathered()).len() ==> #[trigger] is_tool_call(
                    events@[i],
                    self.gathered()[index_order(self.gathered())[i]].id,
                    self.gathered()[index_order(self.gathered())[i]].name,
                    event_args(json_reprint(self.gathered()[index_order(self.gathered())[i]].args)),
                ),
    {
        let mut events = assemble_tool_calls(self.pending);
        events.push(AppEvent::Done);
        events
    }
}

} // verus!
