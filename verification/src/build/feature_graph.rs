//! The crate's Cargo feature graph: which features a feature pulls in.
//!
//! The graph is read from the `[features]` table of the crate's manifest
//! text ([`CRATE_MANIFEST`]), so there is no hand-maintained mirror of it.
//! [`capabilities_for_features`] closes a consumer's declared feature list
//! over the graph (as Cargo does when it compiles the `.so`) and maps every
//! resolved feature to the capability id it contributes.
use vstd::prelude::*;

use crate::build::registry::{feature_capability, cargo_feature_to_capability};
use crate::text::{
    char_vecs, chars_eq, chars_of, find_char, find_char_exec, is_ws, lines_exec, slice_chars,
    sorted_enumeration, sorted_insert, split_lines, split_once_char, split_once_char_exec,
    starts_with, starts_with_exec, strictly_sorted, string_of, strings_of, strs, texts, trim,
    trim_chars, vec_contains, TextLike,
};

verus! {

/// The manifest of this crate, whose `[features]` table is the feature
/// graph.
pub const CRATE_MANIFEST: &'static str = r#"[package]
name = "mobile-sentinel"
edition = "2021"

[features]
default = []

# Leaf capabilities: each has a feature-gated Rust door and a Kotlin module.
scanner = []
camera = []
haptics = []
audio = []
overlay = []
permissions = []
sensors = []
torch = []
display = []
battery = []
screen_pin = []
foregrounding = []
media_picker = []
clipboard = []
share = []
secure_storage = []
sms = []
phone = []
network = []
location = []
maps = []
biometric = []
device_admin = []
contacts = []
calendar = []
dismiss_guard = ["screen_pin"]
notifications = []
file_system = []
accessibility = ["kiosk"]

# Firing sub-features, each its own Gradle module.
foreground-service = []
firing-audio = []
firing-vibration = []
wake-lock = []
exact-alarm = []
kiosk = []
full-screen-intent = []
firing = [
    "foreground-service",
    "firing-audio",
    "firing-vibration",
    "wake-lock",
    "exact-alarm",
    "kiosk",
    "full-screen-intent",
]

# Building blocks.
jobs = []
state-store = []
sound-library = []
recipes = ["state-store"]
alarm-kit = ["recipes", "firing", "sound-library", "jobs"]

[dependencies]
serde = { version = "1", features = ["derive"] }
"#;

// ---------------------------------------------------------------------------
// Association lists
// ---------------------------------------------------------------------------

/// A feature graph as a specification: `(feature, dependencies)` pairs.
pub type Edges = Seq<(Seq<char>, Seq<Seq<char>>)>;

/// The index of the first entry for key `k`, searching from `i`.
pub open spec fn entry_index_from(g: Edges, k: Seq<char>, i: int) -> Option<int>
    decreases g.len() - i,
{
    if i < 0 || i >= g.len() {
        None
    } else if g[i].0 == k {
        Some(i)
    } else {
        entry_index_from(g, k, i + 1)
    }
}

/// The index of the entry for key `k`.
pub open spec fn entry_index(g: Edges, k: Seq<char>) -> Option<int> {
    entry_index_from(g, k, 0)
}

/// `g` with key `k` mapped to `v` (replacing an existing entry in place).
pub open spec fn set_entry(g: Edges, k: Seq<char>, v: Seq<Seq<char>>) -> Edges {
    match entry_index(g, k) {
        Some(i) => g.update(i, (k, v)),
        None => g.push((k, v)),
    }
}

/// The dependencies of feature `f` (empty for a leaf or unknown feature).
pub open spec fn deps_of(g: Edges, f: Seq<char>) -> Seq<Seq<char>> {
    match entry_index(g, f) {
        Some(i) => g[i].1,
        None => seq![],
    }
}

pub proof fn lemma_entry_index_from_props(g: Edges, k: Seq<char>, i: int)
    requires
        0 <= i,
    ensures
        entry_index_from(g, k, i) matches Some(j) ==> i <= j < g.len() && g[j].0 == k,
        entry_index_from(g, k, i) is None ==> forall|m: int| i <= m < g.len() ==> g[m].0 != k,
    decreases g.len() - i,
{
    if i < g.len() && g[i].0 != k {
        lemma_entry_index_from_props(g, k, i + 1);
    }
}

// ---------------------------------------------------------------------------
// Parsing the [features] table
// ---------------------------------------------------------------------------

/// `[` count minus `]` count.
pub open spec fn bracket_delta(s: Seq<char>) -> int
    decreases s.len(),
{
    if s.len() == 0 {
        0
    } else {
        bracket_delta(s.drop_last()) + if s.last() == '[' {
            1int
        } else if s.last() == ']' {
            -1int
        } else {
            0int
        }
    }
}

/// The scan state over `s` for [`extract_quoted`]: inside a quote, the
/// current token, the finished tokens.
pub open spec fn quote_scan(s: Seq<char>) -> (bool, Seq<char>, Seq<Seq<char>>)
    decreases s.len(),
{
    if s.len() == 0 {
        (false, seq![], seq![])
    } else {
        let (q, cur, out) = quote_scan(s.drop_last());
        let ch = s.last();
        if ch == '"' {
            if q {
                (false, seq![], out.push(cur))
            } else {
                (true, cur, out)
            }
        } else if q {
            (q, cur.push(ch), out)
        } else {
            (q, cur, out)
        }
    }
}

/// Every double-quoted token of `s`, in order (an unterminated quote yields
/// nothing).
pub open spec fn extract_quoted(s: Seq<char>) -> Seq<Seq<char>> {
    quote_scan(s).2
}

/// The state of the line-by-line `[features]` parser.
pub struct ParseState {
    pub in_features: bool,
    pub done: bool,
    pub name: Option<Seq<char>>,
    pub buf: Seq<char>,
    pub depth: int,
    pub edges: Edges,
}

pub open spec fn initial_parse_state() -> ParseState {
    ParseState { in_features: false, done: false, name: None, buf: seq![], depth: 0, edges: seq![] }
}

/// A line up to its first `#`.
pub open spec fn strip_comment(raw: Seq<char>) -> Seq<char> {
    match find_char(raw, '#') {
        Some(i) => raw.take(i),
        None => raw,
    }
}

/// Close the pending entry once its brackets balance: a feature with at
/// least one quoted dependency is recorded.
pub open spec fn finish_entry(st: ParseState) -> ParseState {
    if st.depth <= 0 {
        let edges = match st.name {
            Some(nm) => {
                let deps = extract_quoted(st.buf);
                if deps.len() > 0 {
                    set_entry(st.edges, nm, deps)
                } else {
                    st.edges
                }
            },
            None => st.edges,
        };
        ParseState { name: None, buf: seq![], depth: 0, edges, ..st }
    } else {
        st
    }
}

/// One line of the `[features]` parser: comments stripped, the table entered
/// at `[features]` and left at the next top-level section header; an entry
/// `name = [ ... ]` may span several lines.
pub open spec fn parse_step(st: ParseState, raw: Seq<char>) -> ParseState {
    if st.done {
        st
    } else {
        let line = trim(strip_comment(raw));
        if !st.in_features {
            if line == "[features]"@ {
                ParseState { in_features: true, ..st }
            } else {
                st
            }
        } else if st.depth == 0 && starts_with(line, "["@) {
            ParseState { done: true, ..st }
        } else if line.len() == 0 {
            st
        } else if st.depth == 0 {
            match split_once_char(line, '=') {
                None => st,
                Some((n, rest)) => finish_entry(
                    ParseState {
                        name: Some(trim(n)),
                        buf: rest,
                        depth: st.depth + bracket_delta(rest),
                        ..st
                    },
                ),
            }
        } else {
            finish_entry(
                ParseState {
                    buf: st.buf + " "@ + line,
                    depth: st.depth + bracket_delta(line),
                    ..st
                },
            )
        }
    }
}

/// The parser state after the first `n` lines.
pub open spec fn parse_prefix(lines: Seq<Seq<char>>, n: int) -> ParseState
    decreases n,
{
    if n <= 0 {
        initial_parse_state()
    } else {
        parse_step(parse_prefix(lines, n - 1), lines[n - 1])
    }
}

/// The feature graph of a `Cargo.toml`: each feature of its `[features]`
/// table with at least one dependency, with those dependencies.
pub open spec fn parse_feature_edges_spec(cargo_toml: Seq<char>) -> Edges {
    let lines = split_lines(cargo_toml);
    parse_prefix(lines, lines.len() as int).edges
}

fn bracket_delta_exec(s: &[char]) -> (r: i128)
    ensures
        r == bracket_delta(s@),
{
    let mut d: i128 = 0;
    let mut i: usize = 0;
    while i < s.len()
        invariant
            i <= s.len(),
            d == bracket_delta(s@.take(i as int)),
            -(i as int) <= d <= i as int,
        decreases s.len() - i,
    {
        assert(s@.take(i + 1).drop_last() =~= s@.take(i as int));
        if s[i] == '[' {
            d = d + 1;
        } else if s[i] == ']' {
            d = d - 1;
        }
        i = i + 1;
    }
    assert(s@.take(s.len() as int) =~= s@);
    d
}

fn extract_quoted_exec(s: &[char]) -> (r: Vec<Vec<char>>)
    ensures
        char_vecs(r@) == extract_quoted(s@),
{
    let mut out: Vec<Vec<char>> = Vec::new();
    let mut cur: Vec<char> = Vec::new();
    let mut in_quote = false;
    let mut i: usize = 0;
    while i < s.len()
        invariant
            i <= s.len(),
            quote_scan(s@.take(i as int)) == (in_quote, cur@, char_vecs(out@)),
        decreases s.len() - i,
    {
        assert(s@.take(i + 1).drop_last() =~= s@.take(i as int));
        let ch = s[i];
        if ch == '"' {
            if in_quote {
                let ghost before = out@;
                let token = cur;
                cur = Vec::new();
                out.push(token);
                assert(char_vecs(out@) =~= char_vecs(before).push(token@));
            }
            in_quote = !in_quote;
        } else if in_quote {
            cur.push(ch);
        }
        i = i + 1;
    }
    assert(s@.take(s.len() as int) =~= s@);
    out
}

/// A feature graph: each feature with at least one dependency, with its
/// dependencies in declaration order.
#[derive(Debug, Clone)]
pub struct FeatureGraph {
    pub entries: Vec<(String, Vec<String>)>,
}

/// The graph of a vector of `(feature, dependencies)` entries.
pub open spec fn edges_of(entries: Seq<(Vec<char>, Vec<Vec<char>>)>) -> Edges {
    entries.map_values(|e: (Vec<char>, Vec<Vec<char>>)| (e.0@, char_vecs(e.1@)))
}

impl View for FeatureGraph {
    type V = Edges;

    open spec fn view(&self) -> Edges {
        self.entries@.map_values(|e: (String, Vec<String>)| (e.0@, strs(e.1@)))
    }
}

fn entry_index_exec(g: &Vec<(Vec<char>, Vec<Vec<char>>)>, k: &[char]) -> (r: Option<usize>)
    ensures
        match r {
            Some(i) => entry_index(edges_of(g@), k@) == Some(i as int),
            None => entry_index(edges_of(g@), k@) is None,
        },
{
    let mut i: usize = 0;
    while i < g.len()
        invariant
            i <= g.len(),
            entry_index_from(edges_of(g@), k@, i as int) == entry_index(edges_of(g@), k@),
        decreases g.len() - i,
    {
        if chars_eq(g[i].0.as_slice(), k) {
            return Some(i);
        }
        i = i + 1;
    }
    None
}

pub proof fn lemma_bracket_delta_bound(s: Seq<char>)
    ensures
        -(s.len() as int) <= bracket_delta(s) <= s.len(),
    decreases s.len(),
{
    if s.len() > 0 {
        lemma_bracket_delta_bound(s.drop_last());
    }
}

pub proof fn lemma_parse_done_stable(ls: Seq<Seq<char>>, n: int, m: int)
    requires
        0 <= n <= m,
        parse_prefix(ls, n).done,
    ensures
        parse_prefix(ls, m) == parse_prefix(ls, n),
    decreases m - n,
{
    if m > n {
        lemma_parse_done_stable(ls, n, m - 1);
    }
}

/// The next line of `s` at position `i`, and the position after it.
fn next_line(s: &[char], i: usize) -> (r: (Vec<char>, usize))
    requires
        i < s.len(),
    ensures
        i < r.1 <= s.len(),
        r.0@.len() <= r.1 - i,
        crate::text::lines_from(s@, i as int) == seq![r.0@] + crate::text::lines_from(s@, r.1 as int),
{
    proof {
        crate::text::lemma_find_char_from_props(s@, '\n', i as int);
    }
    match crate::text::find_char_from_exec(s, '\n', i) {
        Some(j) => {
            let mut line = slice_chars(s, i, j);
            if line.len() > 0 && line[line.len() - 1] == '\r' {
                line.pop();
                assert(line@ =~= crate::text::strip_cr(s@.subrange(i as int, j as int)));
            }
            (line, j + 1)
        },
        None => {
            let line = slice_chars(s, i, s.len());
            assert(crate::text::lines_from(s@, s@.len() as int) =~= Seq::<Seq<char>>::empty());
            assert(seq![line@] + crate::text::lines_from(s@, s@.len() as int) =~= seq![line@]);
            (line, s.len())
        },
    }
}

/// The executable state of the `[features]` parser.
struct Parser {
    in_features: bool,
    done: bool,
    name: Option<Vec<char>>,
    buf: Vec<char>,
    depth: i128,
    edges: Vec<(Vec<char>, Vec<Vec<char>>)>,
}

impl View for Parser {
    type V = ParseState;

    closed spec fn view(&self) -> ParseState {
        ParseState {
            in_features: self.in_features,
            done: self.done,
            name: match self.name {
                Some(n) => Some(n@),
                None => None,
            },
            buf: self.buf@,
            depth: self.depth as int,
            edges: edges_of(self.edges@),
        }
    }
}

fn set_entry_exec(edges: &mut Vec<(Vec<char>, Vec<Vec<char>>)>, k: Vec<char>, v: Vec<Vec<char>>)
    ensures
        edges_of(final(edges)@) == set_entry(edges_of(old(edges)@), k@, char_vecs(v@)),
{
    let ghost kv = k@;
    let ghost vv = char_vecs(v@);
    proof {
        lemma_entry_index_from_props(edges_of(edges@), k@, 0);
    }
    match entry_index_exec(edges, k.as_slice()) {
        Some(i) => {
            assert(entry_index_from(edges_of(edges@), k@, 0) == Some(i as int));
            let ghost before = edges@;
            edges.set(i, (k, v));
            assert(edges_of(edges@) =~= edges_of(before).update(i as int, (kv, vv)));
        },
        None => {
            let ghost before = edges@;
            edges.push((k, v));
            assert(edges_of(edges@) =~= edges_of(before).push((kv, vv)));
        },
    }
}

impl Parser {
    fn finish(&mut self)
        ensures
            final(self)@ == finish_entry(old(self)@),
    {
        if self.depth <= 0 {
            let name = self.name.take();
            match name {
                Some(nm) => {
                    let deps = extract_quoted_exec(self.buf.as_slice());
                    if deps.len() > 0 {
                        set_entry_exec(&mut self.edges, nm, deps);
                    }
                },
                None => {},
            }
            self.depth = 0;
            self.buf = Vec::new();
            assert(self@.buf =~= Seq::<char>::empty());
        }
    }

    fn step(&mut self, raw: &[char], bound: usize)
        requires
            -(bound as int) <= old(self).depth <= bound,
            !old(self).done,
        ensures
            final(self)@ == parse_step(old(self)@, raw@),
            -(bound + raw@.len()) <= final(self).depth <= bound + raw@.len(),
    {
        let stripped = match find_char_exec(raw, '#') {
            Some(h) => {
                proof {
                    crate::text::lemma_find_char_from_props(raw@, '#', 0);
                    assert(crate::text::find_char_from(raw@, '#', 0) == Some(h as int));
                }
                slice_chars(raw, 0, h)
            },
            None => slice_chars(raw, 0, raw.len()),
        };
        assert(stripped@ =~= strip_comment(raw@));
        proof {
            crate::text::lemma_trim_len(stripped@);
        }
        let line = trim_chars(stripped.as_slice());
        assert(line@.len() <= raw@.len());
        if !self.in_features {
            let header = chars_of("[features]");
            if chars_eq(line.as_slice(), header.as_slice()) {
                self.in_features = true;
            }
            return;
        }
        let open = chars_of("[");
        if self.depth == 0 && starts_with_exec(line.as_slice(), open.as_slice()) {
            self.done = true;
            return;
        }
        if line.len() == 0 {
            return;
        }
        if self.depth == 0 {
            match split_once_char_exec(line.as_slice(), '=') {
                None => {},
                Some((n, rest)) => {
                    proof {
                        lemma_bracket_delta_bound(rest@);
                        crate::text::lemma_find_char_from_props(line@, '=', 0);
                    }
                    assert(rest@.len() <= line@.len());
                    self.name = Some(trim_chars(n.as_slice()));
                    self.depth = bracket_delta_exec(rest.as_slice());
                    self.buf = rest;
                    self.finish();
                },
            }
        } else {
            proof {
                lemma_bracket_delta_bound(line@);
            }
            let ghost before = self.buf@;
            crate::text::push_str_chars(&mut self.buf, " ");
            crate::text::push_chars(&mut self.buf, line.as_slice());
            let d = bracket_delta_exec(line.as_slice());
            self.depth = self.depth + d;
            self.finish();
        }
    }
}

/// Parse the `[features]` table of a `Cargo.toml` into `feature → deps`.
/// Only features with at least one dependency are kept (leaf `foo = []`
/// entries map to nothing). Handles single-line and multi-line array values
/// and strips `#` comments.
pub fn parse_feature_edges(cargo_toml: &str) -> (g: FeatureGraph)
    ensures
        g@ == parse_feature_edges_spec(cargo_toml@),
{
    let text = chars_of(cargo_toml);
    let ghost ls = split_lines(text@);
    let mut p = Parser {
        in_features: false,
        done: false,
        name: None,
        buf: Vec::new(),
        depth: 0,
        edges: Vec::new(),
    };
    let ghost mut done_lines: Seq<Seq<char>> = seq![];
    let mut i: usize = 0;
    assert(edges_of(p.edges@) =~= Seq::<(Seq<char>, Seq<Seq<char>>)>::empty());
    assert(p@ =~= initial_parse_state());
    assert(ls =~= done_lines + crate::text::lines_from(text@, 0));
    while i < text.len() && !p.done
        invariant
            i <= text.len(),
            ls == split_lines(text@),
            ls == done_lines + crate::text::lines_from(text@, i as int),
            p@ == parse_prefix(ls, done_lines.len() as int),
            -(i as int) <= p.depth <= i,
        decreases text.len() - i,
    {
        let (line, next) = next_line(text.as_slice(), i);
        let ghost n = done_lines.len();
        assert(ls[n as int] == line@);
        p.step(line.as_slice(), i);
        proof {
            done_lines = done_lines.push(line@);
            assert(ls =~= done_lines + crate::text::lines_from(text@, next as int));
        }
        i = next;
    }
    proof {
        if p.done {
            lemma_parse_done_stable(ls, done_lines.len() as int, ls.len() as int);
        } else {
            assert(crate::text::lines_from(text@, i as int) =~= Seq::<Seq<char>>::empty());
            assert(ls =~= done_lines);
        }
    }
    let mut entries: Vec<(String, Vec<String>)> = Vec::new();
    let mut k: usize = 0;
    while k < p.edges.len()
        invariant
            k <= p.edges.len(),
            entries@.map_values(|e: (String, Vec<String>)| (e.0@, strs(e.1@))) == edges_of(
                p.edges@,
            ).take(k as int),
        decreases p.edges.len() - k,
    {
        let key = string_of(p.edges[k].0.as_slice());
        let deps = strings_of(&p.edges[k].1);
        let ghost before = entries@;
        let ghost item = (key@, strs(deps@));
        assert(item == edges_of(p.edges@)[k as int]);
        entries.push((key, deps));
        k = k + 1;
        assert(entries@.map_values(|e: (String, Vec<String>)| (e.0@, strs(e.1@))) =~= before.map_values(|e: (String, Vec<String>)| (e.0@, strs(e.1@))).push(item));
        assert(edges_of(p.edges@).take(k as int) =~= edges_of(p.edges@).take(k - 1).push(item));
        assert(entries@.map_values(|e: (String, Vec<String>)| (e.0@, strs(e.1@))) =~= edges_of(
            p.edges@,
        ).take(k as int));
    }
    assert(edges_of(p.edges@).take(p.edges.len() as int) =~= edges_of(p.edges@));
    FeatureGraph { entries }
}

// ---------------------------------------------------------------------------
// The graph, lookups and the feature closure
// ---------------------------------------------------------------------------

/// The crate's own feature graph, parsed from [`CRATE_MANIFEST`].
pub open spec fn crate_feature_graph() -> Edges {
    parse_feature_edges_spec(CRATE_MANIFEST@)
}

/// The crate's own feature graph, parsed from [`CRATE_MANIFEST`]: the single
/// source for the feature dependency graph.
pub fn feature_edges() -> (g: FeatureGraph)
    ensures
        g@ == crate_feature_graph(),
{
    parse_feature_edges(CRATE_MANIFEST)
}

impl FeatureGraph {
    fn index_of(&self, f: &[char]) -> (r: Option<usize>)
        ensures
            match r {
                Some(i) => entry_index(self@, f@) == Some(i as int),
                None => entry_index(self@, f@) is None,
            },
    {
        let mut i: usize = 0;
        while i < self.entries.len()
            invariant
                i <= self.entries.len(),
                entry_index_from(self@, f@, i as int) == entry_index(self@, f@),
            decreases self.entries.len() - i,
        {
            let key = chars_of(self.entries[i].0.as_str());
            if chars_eq(key.as_slice(), f) {
                return Some(i);
            }
            i = i + 1;
        }
        None
    }

    /// The dependencies of `feature`, if it has an entry.
    pub fn get(&self, feature: &str) -> (r: Option<&Vec<String>>)
        ensures
            match r {
                Some(deps) => entry_index(self@, feature@) is Some && strs(deps@) == deps_of(
                    self@,
                    feature@,
                ),
                None => entry_index(self@, feature@) is None,
            },
    {
        let f = chars_of(feature);
        match self.index_of(f.as_slice()) {
            Some(i) => {
                proof {
                    lemma_entry_index_from_props(self@, feature@, 0);
                }
                Some(&self.entries[i].1)
            },
            None => None,
        }
    }

    /// The dependencies of feature `f` as characters.
    pub fn deps_chars(&self, f: &[char]) -> (r: Vec<Vec<char>>)
        ensures
            char_vecs(r@) == deps_of(self@, f@),
    {
        match self.index_of(f) {
            Some(i) => {
                proof {
                    lemma_entry_index_from_props(self@, f@, 0);
                }
                let deps = &self.entries[i].1;
                let mut out: Vec<Vec<char>> = Vec::new();
                let mut k: usize = 0;
                while k < deps.len()
                    invariant
                        k <= deps.len(),
                        char_vecs(out@) == strs(deps@).take(k as int),
                    decreases deps.len() - k,
                {
                    let ghost before = out@;
                    out.push(chars_of(deps[k].as_str()));
                    k = k + 1;
                    assert(char_vecs(out@) =~= char_vecs(before).push(deps@[k - 1]@));
                    assert(strs(deps@).take(k as int) =~= strs(deps@).take(k - 1).push(
                        deps@[k - 1]@,
                    ));
                }
                assert(strs(deps@).take(deps.len() as int) =~= strs(deps@));
                out
            },
            None => {
                let out: Vec<Vec<char>> = Vec::new();
                assert(char_vecs(out@) =~= Seq::<Seq<char>>::empty());
                out
            },
        }
    }
}

/// `p` is a walk along the graph's edges.
pub open spec fn is_path(g: Edges, p: Seq<Seq<char>>) -> bool {
    p.len() > 0 && forall|i: int|
        0 <= i < p.len() - 1 ==> #[trigger] deps_of(g, p[i]).contains(p[i + 1])
}

/// `f` can be reached from one of the `init` features along the graph.
pub open spec fn reachable(g: Edges, init: Seq<Seq<char>>, f: Seq<char>) -> bool {
    exists|p: Seq<Seq<char>>| #[trigger] is_path(g, p) && init.contains(p[0]) && p.last() == f
}

/// The transitive closure of `init` over the graph: every feature reachable
/// from a declared one (Cargo enables a feature's dependencies too).
pub open spec fn feature_closure(g: Edges, init: Seq<Seq<char>>) -> Set<Seq<char>> {
    Set::new(|f: Seq<char>| reachable(g, init, f))
}

/// The declared features, trimmed.
pub open spec fn trimmed(features: Seq<Seq<char>>) -> Seq<Seq<char>> {
    features.map_values(|f: Seq<char>| trim(f))
}

/// Every dependency named anywhere in the graph.
pub open spec fn all_deps(g: Edges) -> Seq<Seq<char>>
    decreases g.len(),
{
    if g.len() == 0 {
        seq![]
    } else {
        all_deps(g.drop_last()) + g.last().1
    }
}

proof fn lemma_all_deps_contains(g: Edges, i: int, d: Seq<char>)
    requires
        0 <= i < g.len(),
        g[i].1.contains(d),
    ensures
        all_deps(g).contains(d),
    decreases g.len(),
{
    let rest = g.drop_last();
    if i < g.len() - 1 {
        assert(rest[i] == g[i]);
        lemma_all_deps_contains(rest, i, d);
        let k = choose|k: int| 0 <= k < all_deps(rest).len() && all_deps(rest)[k] == d;
        assert((all_deps(rest) + g.last().1)[k] == d);
    } else {
        let k = choose|k: int| 0 <= k < g[i].1.len() && g[i].1[k] == d;
        assert((all_deps(rest) + g.last().1)[all_deps(rest).len() + k] == d);
    }
}

proof fn lemma_deps_in_all(g: Edges, f: Seq<char>, d: Seq<char>)
    requires
        deps_of(g, f).contains(d),
    ensures
        all_deps(g).contains(d),
{
    lemma_entry_index_from_props(g, f, 0);
    match entry_index(g, f) {
        Some(i) => lemma_all_deps_contains(g, i, d),
        None => {},
    }
}

proof fn lemma_nodup_len_le(s: Seq<Seq<char>>, u: Seq<Seq<char>>)
    requires
        s.no_duplicates(),
        forall|x: Seq<char>| s.contains(x) ==> u.contains(x),
    ensures
        s.len() <= u.len(),
{
    s.unique_seq_to_set();
    u.lemma_cardinality_of_set();
    assert(s.to_set().subset_of(u.to_set()));
    vstd::set_lib::lemma_len_subset(s.to_set(), u.to_set());
}

/// Every reachable feature lies in any set that contains the declared
/// features and is closed under the graph's edges.
pub proof fn lemma_reachable_in_closed(g: Edges, init: Seq<Seq<char>>, s: Set<Seq<char>>, p: Seq<Seq<char>>)
    requires
        forall|f: Seq<char>| init.contains(f) ==> s.contains(f),
        forall|f: Seq<char>, d: Seq<char>|
            #![trigger s.contains(f), deps_of(g, f).contains(d)]
            s.contains(f) && deps_of(g, f).contains(d) ==> s.contains(d),
        is_path(g, p),
        init.contains(p[0]),
    ensures
        s.contains(p.last()),
    decreases p.len(),
{
    if p.len() > 1 {
        let q = p.drop_last();
        assert(is_path(g, q)) by {
            assert forall|i: int| 0 <= i < q.len() - 1 implies #[trigger] deps_of(g, q[i]).contains(
                q[i + 1],
            ) by {
                assert(deps_of(g, p[i]).contains(p[i + 1]));
            }
        }
        lemma_reachable_in_closed(g, init, s, q);
        let i = p.len() - 2;
        assert(deps_of(g, p[i]).contains(p[i + 1]));
        assert(q.last() == p[i]);
        assert(s.contains(q.last()));
    }
}

/// Close the trimmed declared features over the graph.
/// The closure of `init` over the graph `g`, free of duplicates.
pub fn expand_feature_closure(g: &FeatureGraph, init: &Vec<Vec<char>>) -> (c: Vec<Vec<char>>)
    ensures
        char_vecs(c@).to_set() == feature_closure(g@, char_vecs(init@)),
        forall|x: Seq<char>|
            char_vecs(c@).contains(x) ==> char_vecs(init@).contains(x) || all_deps(g@).contains(x),
{
    let ghost gi = g@;
    let ghost iv = char_vecs(init@);
    let ghost u = iv + all_deps(gi);
    let mut closure: Vec<Vec<char>> = Vec::new();
    let mut k: usize = 0;
    while k < init.len()
        invariant
            k <= init.len(),
            iv == char_vecs(init@),
            u == iv + all_deps(gi),
            char_vecs(closure@).no_duplicates(),
            forall|x: Seq<char>| char_vecs(closure@).contains(x) ==> #[trigger] u.contains(x),
            forall|m: int| 0 <= m < k ==> char_vecs(closure@).contains(#[trigger] iv[m]),
            forall|x: Seq<char>| char_vecs(closure@).contains(x) ==> #[trigger] reachable(gi, iv, x),
        decreases init.len() - k,
    {
        if !vec_contains(&closure, init[k].as_slice()) {
            let ghost before = char_vecs(closure@);
            closure.push(init[k].clone());
            proof {
                let x = iv[k as int];
                assert(char_vecs(closure@) =~= before.push(x));
                assert(u[k as int] == x);
                let p = seq![x];
                assert(is_path(gi, p));
                assert(iv.contains(p[0]));
                assert(reachable(gi, iv, x));
                assert forall|m: int| 0 <= m < k + 1 implies char_vecs(closure@).contains(
                    #[trigger] iv[m],
                ) by {
                    if m < k {
                        let j = choose|j: int| 0 <= j < before.len() && before[j] == iv[m];
                        assert(char_vecs(closure@)[j] == iv[m]);
                    } else {
                        assert(char_vecs(closure@)[before.len() as int] == iv[m]);
                    }
                }
                assert forall|y: Seq<char>| char_vecs(closure@).contains(y) implies #[trigger] u.contains(y) && reachable(gi, iv, y) by {
                    let j = choose|j: int| 0 <= j < char_vecs(closure@).len() && char_vecs(closure@)[j] == y;
                    if j < before.len() {
                        assert(before[j] == y);
                    }
                }
            }
        }
        k = k + 1;
    }
    let mut i: usize = 0;
    while i < closure.len()
        invariant
            i <= closure.len(),
            gi == g@,
            iv == char_vecs(init@),
            u == iv + all_deps(gi),
            char_vecs(closure@).no_duplicates(),
            forall|x: Seq<char>| char_vecs(closure@).contains(x) ==> #[trigger] u.contains(x),
            forall|m: int| 0 <= m < iv.len() ==> char_vecs(closure@).contains(#[trigger] iv[m]),
            forall|x: Seq<char>| char_vecs(closure@).contains(x) ==> #[trigger] reachable(gi, iv, x),
            forall|j: int, d: Seq<char>|
                0 <= j < i && #[trigger] deps_of(gi, char_vecs(closure@)[j]).contains(d)
                    ==> char_vecs(closure@).contains(d),
        decreases u.len() - i,
    {
        proof {
            lemma_nodup_len_le(char_vecs(closure@), u);
        }
        let deps = g.deps_chars(closure[i].as_slice());
        let ghost fi = char_vecs(closure@)[i as int];
        let mut k: usize = 0;
        while k < deps.len()
            invariant
                k <= deps.len(),
                i < closure.len(),
                fi == char_vecs(closure@)[i as int],
                char_vecs(deps@) == deps_of(gi, fi),
                gi == g@,
                iv == char_vecs(init@),
                u == iv + all_deps(gi),
                char_vecs(closure@).no_duplicates(),
                forall|x: Seq<char>| char_vecs(closure@).contains(x) ==> #[trigger] u.contains(x),
                forall|m: int| 0 <= m < iv.len() ==> char_vecs(closure@).contains(#[trigger] iv[m]),
                forall|x: Seq<char>| char_vecs(closure@).contains(x) ==> #[trigger] reachable(gi, iv, x),
                forall|j: int, d: Seq<char>|
                    0 <= j < i && #[trigger] deps_of(gi, char_vecs(closure@)[j]).contains(d)
                        ==> char_vecs(closure@).contains(d),
                forall|m: int| 0 <= m < k ==> char_vecs(closure@).contains(#[trigger] char_vecs(deps@)[m]),
            decreases deps.len() - k,
        {
            let ghost before = char_vecs(closure@);
            if !vec_contains(&closure, deps[k].as_slice()) {
                closure.push(deps[k].clone());
                proof {
                    let d = char_vecs(deps@)[k as int];
                    assert(char_vecs(closure@) =~= before.push(d));
                    assert(deps_of(gi, fi).contains(d)) by {
                        assert(deps_of(gi, fi)[k as int] == d);
                    }
                    lemma_deps_in_all(gi, fi, d);
                    assert(u.contains(d)) by {
                        let j = choose|j: int| 0 <= j < all_deps(gi).len() && all_deps(gi)[j] == d;
                        assert(u[iv.len() + j] == d);
                    }
                    assert(reachable(gi, iv, fi));
                    let p = choose|p: Seq<Seq<char>>| #[trigger] is_path(gi, p) && iv.contains(p[0]) && p.last() == fi;
                    let p2 = p.push(d);
                    assert(is_path(gi, p2)) by {
                        assert forall|m: int| 0 <= m < p2.len() - 1 implies #[trigger] deps_of(gi, p2[m]).contains(p2[m + 1]) by {
                            if m < p.len() - 1 {
                                assert(deps_of(gi, p[m]).contains(p[m + 1]));
                            } else {
                                assert(p2[m] == fi);
                            }
                        }
                    }
                    assert(iv.contains(p2[0]));
                    assert(reachable(gi, iv, d));
                    assert forall|y: Seq<char>| char_vecs(closure@).contains(y) implies #[trigger] u.contains(y) && reachable(gi, iv, y) by {
                        let j = choose|j: int| 0 <= j < char_vecs(closure@).len() && char_vecs(closure@)[j] == y;
                        if j < before.len() {
                            assert(before[j] == y);
                        }
                    }
                    assert forall|y: Seq<char>| before.contains(y) implies char_vecs(closure@).contains(y) by {
                        let j = choose|j: int| 0 <= j < before.len() && before[j] == y;
                        assert(char_vecs(closure@)[j] == y);
                    }
                    assert(char_vecs(closure@)[before.len() as int] == d);
                }
            }
            k = k + 1;
        }
        proof {
            assert forall|j: int, d: Seq<char>|
                0 <= j < i + 1 && #[trigger] deps_of(gi, char_vecs(closure@)[j]).contains(d)
                    implies char_vecs(closure@).contains(d) by {
                if j == i {
                    let m = choose|m: int| 0 <= m < deps_of(gi, fi).len() && deps_of(gi, fi)[m] == d;
                    assert(char_vecs(deps@)[m] == d);
                }
            }
        }
        i = i + 1;
    }
    proof {
        let cs = char_vecs(closure@).to_set();
        assert forall|f: Seq<char>| iv.contains(f) implies cs.contains(f) by {
            let m = choose|m: int| 0 <= m < iv.len() && iv[m] == f;
        }
        assert forall|f: Seq<char>, d: Seq<char>|
            #![trigger cs.contains(f), deps_of(gi, f).contains(d)]
            cs.contains(f) && deps_of(gi, f).contains(d) implies cs.contains(d) by {
            let j = choose|j: int| 0 <= j < char_vecs(closure@).len() && char_vecs(closure@)[j] == f;
            assert(deps_of(gi, char_vecs(closure@)[j]).contains(d));
        }
        assert forall|f: Seq<char>| feature_closure(gi, iv).contains(f) implies cs.contains(f) by {
            let p = choose|p: Seq<Seq<char>>| #[trigger] is_path(gi, p) && iv.contains(p[0]) && p.last() == f;
            lemma_reachable_in_closed(gi, iv, cs, p);
        }
        assert(cs =~= feature_closure(gi, iv));
        assert forall|x: Seq<char>| char_vecs(closure@).contains(x) implies iv.contains(x) || all_deps(gi).contains(x) by {
            assert(u.contains(x));
            let j = choose|j: int| 0 <= j < u.len() && u[j] == x;
            if j < iv.len() {
                assert(iv[j] == x);
            } else {
                assert(all_deps(gi)[j - iv.len()] == x);
            }
        }
    }
    closure
}

/// The capability ids the features of `closure` contribute.
pub open spec fn capability_ids_of(closure: Set<Seq<char>>) -> Set<Seq<char>> {
    Set::new(
        |id: Seq<char>|
            exists|f: Seq<char>|
                closure.contains(f) && #[trigger] feature_capability(f) is Some
                    && feature_capability(f).unwrap().id@ == id,
    )
}

/// The capability ids a declared Cargo feature list enables: the features'
/// transitive closure over the crate's feature graph, mapped to capability
/// ids, sorted and de-duplicated.
pub open spec fn capabilities_for_features_spec(features: Seq<Seq<char>>) -> Set<Seq<char>> {
    capability_ids_of(feature_closure(crate_feature_graph(), trimmed(features)))
}

/// Expand a consumer's declared Cargo feature list into the capability ids
/// it enables. First resolves the full transitive feature closure (so a
/// feature that pulls in others — e.g. `dismiss_guard = ["screen_pin"]`,
/// `alarm-kit → firing` — contributes all the capabilities its closure
/// enables), then maps each resolved feature to its capability id.
/// Deterministic, de-duplicated, sorted.
pub fn capabilities_for_features<S: TextLike>(features: &[S]) -> (r: Vec<String>)
    ensures
        sorted_enumeration(strs(r@), capabilities_for_features_spec(texts(features@))),
{
    let g = feature_edges();
    let mut init: Vec<Vec<char>> = Vec::new();
    let mut k: usize = 0;
    while k < features.len()
        invariant
            k <= features.len(),
            char_vecs(init@) == trimmed(texts(features@)).take(k as int),
        decreases features.len() - k,
    {
        let raw = features[k].text_chars();
        let t = trim_chars(raw.as_slice());
        let ghost before = char_vecs(init@);
        init.push(t);
        k = k + 1;
        assert(char_vecs(init@) =~= before.push(trim(texts(features@)[k - 1])));
        assert(trimmed(texts(features@)).take(k as int) =~= trimmed(texts(features@)).take(k - 1).push(trim(texts(features@)[k - 1])));
    }
    assert(trimmed(texts(features@)).take(features.len() as int) =~= trimmed(texts(features@)));
    let closure = expand_feature_closure(&g, &init);
    let ghost cl = char_vecs(closure@).to_set();
    let mut out: Vec<Vec<char>> = Vec::new();
    let mut i: usize = 0;
    assert(char_vecs(out@).to_set() =~= Set::<Seq<char>>::empty());
    while i < closure.len()
        invariant
            i <= closure.len(),
            cl == char_vecs(closure@).to_set(),
            strictly_sorted(char_vecs(out@)),
            char_vecs(out@).to_set() == capability_ids_of(char_vecs(closure@).take(i as int).to_set()),
        decreases closure.len() - i,
    {
        let f = string_of(closure[i].as_slice());
        let ghost prev = char_vecs(out@).to_set();
        let ghost fi = char_vecs(closure@)[i as int];
        assert(char_vecs(closure@).take(i + 1).to_set() =~= char_vecs(closure@).take(i as int).to_set().insert(fi)) by {
            assert(char_vecs(closure@).take(i + 1) =~= char_vecs(closure@).take(i as int).push(fi));
            char_vecs(closure@).take(i as int).lemma_push_to_set_commute(fi);
        }
        match cargo_feature_to_capability(f.as_str()) {
            Some(id) => {
                sorted_insert(&mut out, chars_of(id));
                proof {
                    let a = capability_ids_of(char_vecs(closure@).take(i + 1).to_set());
                    let b = capability_ids_of(char_vecs(closure@).take(i as int).to_set());
                    assert forall|x: Seq<char>| a.contains(x) implies b.insert(id@).contains(x) by {
                        let h = choose|h: Seq<char>| char_vecs(closure@).take(i + 1).to_set().contains(h) && #[trigger] feature_capability(h) is Some && feature_capability(h).unwrap().id@ == x;
                        if h != fi {
                            assert(char_vecs(closure@).take(i as int).to_set().contains(h));
                        }
                    }
                    assert forall|x: Seq<char>| b.insert(id@).contains(x) implies a.contains(x) by {
                        if x == id@ {
                            assert(char_vecs(closure@).take(i + 1).to_set().contains(fi));
                            assert(feature_capability(fi) is Some);
                        } else {
                            let h = choose|h: Seq<char>| char_vecs(closure@).take(i as int).to_set().contains(h) && #[trigger] feature_capability(h) is Some && feature_capability(h).unwrap().id@ == x;
                            assert(char_vecs(closure@).take(i + 1).to_set().contains(h));
                        }
                    }
                    assert(a =~= b.insert(id@));
                }
            },
            None => {
                proof {
                    let a = capability_ids_of(char_vecs(closure@).take(i + 1).to_set());
                    let b = capability_ids_of(char_vecs(closure@).take(i as int).to_set());
                    assert forall|x: Seq<char>| a.contains(x) implies b.contains(x) by {
                        let h = choose|h: Seq<char>| char_vecs(closure@).take(i + 1).to_set().contains(h) && #[trigger] feature_capability(h) is Some && feature_capability(h).unwrap().id@ == x;
                        if h != fi {
                            assert(char_vecs(closure@).take(i as int).to_set().contains(h));
                        }
                    }
                    assert forall|x: Seq<char>| b.contains(x) implies a.contains(x) by {
                        let h = choose|h: Seq<char>| char_vecs(closure@).take(i as int).to_set().contains(h) && #[trigger] feature_capability(h) is Some && feature_capability(h).unwrap().id@ == x;
                        assert(char_vecs(closure@).take(i + 1).to_set().contains(h));
                    }
                    assert(a =~= b);
                }
            },
        }
        i = i + 1;
    }
    assert(char_vecs(closure@).take(closure.len() as int) =~= char_vecs(closure@));
    strings_of(&out)
}

} // verus!
