//! Configuration of the `build_sentinel` tool: the command line, the
//! `[android]` table of `sentinel.toml`, the `features = [..]` list of a
//! consumer's `mobile-sentinel` dependency, and the capability file the
//! build script writes. Every reader here takes text and returns values; the
//! tool itself finds and reads the files.
use vstd::prelude::*;

use crate::text::{
    char_vecs, chars_eq, chars_of, contains, contains_str, find, find_char_from,
    find_char_from_exec, find_exec, lemma_find_char_from_props, lemma_find_from_props, lines_exec,
    push_chars, push_str_chars, slice_chars, sorted_enumeration, sorted_insert, split_lines,
    split_once_char, split_once_char_exec, starts_with, starts_with_exec, strictly_sorted,
    string_of, strings_of, strs, trim, trim_chars,
};

verus! {

// ---------------------------------------------------------------------------
// Lists
// ---------------------------------------------------------------------------

/// The pieces of `s` from position `i` between occurrences of `c`, as
/// `str::split` yields them (empty pieces included).
pub open spec fn split_from(s: Seq<char>, c: char, i: int) -> Seq<Seq<char>>
    decreases s.len() - i,
{
    if i < 0 || i > s.len() {
        seq![]
    } else {
        match find_char_from(s, c, i) {
            Some(k) => if i <= k < s.len() {
                seq![s.subrange(i, k)] + split_from(s, c, k + 1)
            } else {
                seq![]
            },
            None => seq![s.subrange(i, s.len() as int)],
        }
    }
}

/// `str::split` with a character.
pub open spec fn split_on(s: Seq<char>, c: char) -> Seq<Seq<char>> {
    split_from(s, c, 0)
}

pub fn split_exec(s: &[char], c: char) -> (r: Vec<Vec<char>>)
    ensures
        char_vecs(r@) == split_on(s@, c),
{
    let mut out: Vec<Vec<char>> = Vec::new();
    let mut i: usize = 0;
    while i <= s.len()
        invariant
            i <= s.len(),
            char_vecs(out@) + split_from(s@, c, i as int) == split_on(s@, c),
        decreases s.len() - i,
    {
        proof {
            lemma_find_char_from_props(s@, c, i as int);
        }
        let ghost before = char_vecs(out@);
        match find_char_from_exec(s, c, i) {
            Some(k) => {
                let piece = slice_chars(s, i, k);
                out.push(piece);
                assert(char_vecs(out@) =~= before.push(s@.subrange(i as int, k as int)));
                assert(before + split_from(s@, c, i as int) =~= char_vecs(out@) + split_from(
                    s@,
                    c,
                    k + 1,
                ));
                i = k + 1;
            },
            None => {
                let piece = slice_chars(s, i, s.len());
                out.push(piece);
                assert(char_vecs(out@) =~= before.push(s@.subrange(i as int, s@.len() as int)));
                assert(char_vecs(out@) =~= before + split_from(s@, c, i as int));
                return out;
            },
        }
    }
    out
}

/// `s` without the leading occurrences of `c`.
pub open spec fn strip_leading(s: Seq<char>, c: char) -> Seq<char>
    decreases s.len(),
{
    if s.len() > 0 && s[0] == c {
        strip_leading(s.drop_first(), c)
    } else {
        s
    }
}

/// `s` without the trailing occurrences of `c`.
pub open spec fn strip_trailing(s: Seq<char>, c: char) -> Seq<char>
    decreases s.len(),
{
    if s.len() > 0 && s.last() == c {
        strip_trailing(s.drop_last(), c)
    } else {
        s
    }
}

/// `str::trim_matches` with a character.
pub open spec fn trim_matches(s: Seq<char>, c: char) -> Seq<char> {
    strip_trailing(strip_leading(s, c), c)
}

fn trim_matches_exec(s: &[char], c: char) -> (r: Vec<char>)
    ensures
        r@ == trim_matches(s@, c),
{
    let mut i: usize = 0;
    assert(s@.skip(0) =~= s@);
    while i < s.len() && s[i] == c
        invariant
            i <= s.len(),
            strip_leading(s@.skip(i as int), c) == strip_leading(s@, c),
        decreases s.len() - i,
    {
        assert(s@.skip(i as int).drop_first() =~= s@.skip(i + 1));
        i = i + 1;
    }
    assert(s@.skip(i as int) =~= s@.subrange(i as int, s@.len() as int));
    let mut j: usize = s.len();
    while j > i && s[j - 1] == c
        invariant
            i <= j <= s.len(),
            strip_trailing(s@.subrange(i as int, j as int), c) == trim_matches(s@, c),
        decreases j,
    {
        assert(s@.subrange(i as int, j as int).drop_last() =~= s@.subrange(i as int, j - 1));
        j = j - 1;
    }
    slice_chars(s, i, j)
}

/// One list item as written: trimmed, then stripped of its quotes.
pub open spec fn clean_item(piece: Seq<char>) -> Seq<char> {
    trim_matches(trim(piece), '"')
}

/// The cleaned pieces that are not empty, in order.
pub open spec fn clean_items(pieces: Seq<Seq<char>>) -> Seq<Seq<char>>
    decreases pieces.len(),
{
    if pieces.len() == 0 {
        seq![]
    } else {
        let prev = clean_items(pieces.drop_last());
        let x = clean_item(pieces.last());
        if x.len() == 0 {
            prev
        } else {
            prev.push(x)
        }
    }
}

/// The items of a comma-separated list: each trimmed and unquoted, empty
/// ones dropped.
pub open spec fn list_items(inner: Seq<char>) -> Seq<Seq<char>> {
    clean_items(split_on(inner, ','))
}

fn list_items_exec(inner: &[char]) -> (r: Vec<String>)
    ensures
        strs(r@) == list_items(inner@),
{
    let pieces = split_exec(inner, ',');
    let ghost ps = char_vecs(pieces@);
    let mut out: Vec<String> = Vec::new();
    let mut i: usize = 0;
    assert(ps.take(0) =~= Seq::<Seq<char>>::empty());
    while i < pieces.len()
        invariant
            i <= pieces.len(),
            ps == char_vecs(pieces@),
            strs(out@) == clean_items(ps.take(i as int)),
        decreases pieces.len() - i,
    {
        let t = trim_chars(pieces[i].as_slice());
        let x = trim_matches_exec(t.as_slice(), '"');
        let ghost t1 = ps.take(i + 1);
        assert(t1.drop_last() =~= ps.take(i as int));
        assert(t1.last() == pieces@[i as int]@);
        if x.len() > 0 {
            let ghost before = strs(out@);
            out.push(string_of(x.as_slice()));
            assert(strs(out@) =~= before.push(x@));
        }
        i = i + 1;
    }
    assert(ps.take(pieces.len() as int) =~= ps);
    out
}

/// What `parse_string_list` returns: the items of a bracketed list, or the
/// whole trimmed value as a single item.
pub open spec fn string_list(s: Seq<char>) -> Seq<Seq<char>> {
    let t = trim(s);
    if t.len() > 0 && t[0] == '[' && t.last() == ']' {
        list_items(t.subrange(1, t.len() - 1))
    } else {
        seq![t]
    }
}

/// Parse a `sentinel.toml` value that is either a bracketed list
/// (`["a", "b"]`) or a single value.
pub fn parse_string_list(s: &str) -> (r: Vec<String>)
    ensures
        strs(r@) == string_list(s@),
{
    let cs = chars_of(s);
    let t = trim_chars(cs.as_slice());
    if t.len() > 0 && t[0] == '[' && t[t.len() - 1] == ']' {
        assert(t.len() >= 2) by {
            if t.len() == 1 {
                assert(t@[0] == t@.last());
            }
        }
        let inner = slice_chars(t.as_slice(), 1, t.len() - 1);
        list_items_exec(inner.as_slice())
    } else {
        let mut out: Vec<String> = Vec::new();
        out.push(string_of(t.as_slice()));
        assert(strs(out@) =~= seq![t@]);
        out
    }
}

// ---------------------------------------------------------------------------
// The consumer's Cargo.toml
// ---------------------------------------------------------------------------

/// The features of the `mobile-sentinel` dependency named on `line`
/// (already trimmed), when the line declares a `features = [..]` list.
pub open spec fn features_on_line(t: Seq<char>) -> Seq<Seq<char>> {
    match find(t, "features"@) {
        Some(start) => match find_char_from(t, '[', start) {
            Some(open) => match find_char_from(t, ']', open) {
                Some(close) => list_items(t.subrange(open + 1, close)),
                None => seq![],
            },
            None => seq![],
        },
        None => seq![],
    }
}

/// The line declares the `mobile-sentinel` dependency.
pub open spec fn is_dependency_line(t: Seq<char>) -> bool {
    starts_with(t, "mobile-sentinel "@) || starts_with(t, "mobile-sentinel="@)
}

/// The features of the first `mobile-sentinel` dependency line among
/// `lines`; comment lines are skipped and a dependency line without a list
/// gives no features.
pub open spec fn features_from(lines: Seq<Seq<char>>) -> Seq<Seq<char>>
    decreases lines.len(),
{
    if lines.len() == 0 {
        seq![]
    } else {
        let t = trim(lines[0]);
        if t.len() > 0 && t[0] == '#' {
            features_from(lines.drop_first())
        } else if !is_dependency_line(t) {
            features_from(lines.drop_first())
        } else {
            features_on_line(t)
        }
    }
}

/// The dependency is recognised by its key whether or not a space comes
/// before the `=`: when line `k` is the first line whose trimmed text
/// starts with `mobile-sentinel ` or `mobile-sentinel=`, the features read
/// are the ones listed on that line.
pub proof fn law_dependency_key_either_spelling(lines: Seq<Seq<char>>, k: int)
    requires
        0 <= k < lines.len(),
        starts_with(trim(lines[k]), "mobile-sentinel "@) || starts_with(
            trim(lines[k]),
            "mobile-sentinel="@,
        ),
        forall|j: int|
            0 <= j < k ==> !(starts_with(trim(#[trigger] lines[j]), "mobile-sentinel "@)
                || starts_with(trim(lines[j]), "mobile-sentinel="@)),
    ensures
        features_from(lines) == features_on_line(trim(lines[k])),
    decreases k,
{
    reveal_strlit("mobile-sentinel ");
    reveal_strlit("mobile-sentinel=");
    let t = trim(lines[0]);
    if k == 0 {
        if starts_with(t, "mobile-sentinel "@) {
            assert(t.take(16)[0] == 'm');
        } else {
            assert(t.take(16)[0] == 'm');
        }
    } else {
        assert(!is_dependency_line(t));
        let rest = lines.drop_first();
        assert forall|j: int| 0 <= j < k - 1 implies !(starts_with(trim(#[trigger] rest[j]), "mobile-sentinel "@)
            || starts_with(trim(rest[j]), "mobile-sentinel="@)) by {
            assert(rest[j] == lines[j + 1]);
        }
        assert(rest[k - 1] == lines[k]);
        law_dependency_key_either_spelling(rest, k - 1);
    }
}

/// Extract the `features = [..]` list from the `mobile-sentinel` dependency
/// line of a consumer `Cargo.toml` (the inline-table form
/// `mobile-sentinel = { path = "..", features = ["a", "b"] }`). Empty when
/// the dependency has no features.
pub fn parse_mobile_sentinel_features(cargo_toml: &str) -> (r: Vec<String>)
    ensures
        strs(r@) == features_from(split_lines(cargo_toml@)),
{
    let cs = chars_of(cargo_toml);
    let lines = lines_exec(cs.as_slice());
    let ghost all = char_vecs(lines@);
    let mut i: usize = 0;
    assert(all.skip(0) =~= all);
    while i < lines.len()
        invariant
            i <= lines.len(),
            all == char_vecs(lines@),
            all == split_lines(cargo_toml@),
            features_from(all.skip(i as int)) == features_from(all),
        decreases lines.len() - i,
    {
        let ghost rest = all.skip(i as int);
        assert(rest.drop_first() =~= all.skip(i + 1));
        assert(rest[0] == lines@[i as int]@);
        let t = trim_chars(lines[i].as_slice());
        if t.len() > 0 && t[0] == '#' {
            i = i + 1;
            continue;
        }
        let p1 = chars_of("mobile-sentinel ");
        let p2 = chars_of("mobile-sentinel=");
        if !(starts_with_exec(t.as_slice(), p1.as_slice()) || starts_with_exec(
            t.as_slice(),
            p2.as_slice(),
        )) {
            i = i + 1;
            continue;
        }
        let key = chars_of("features");
        match find_exec(t.as_slice(), key.as_slice()) {
            Some(start) => {
                proof {
                    lemma_find_from_props(t@, key@, 0);
                    lemma_find_char_from_props(t@, '[', start as int);
                }
                match find_char_from_exec(t.as_slice(), '[', start) {
                    Some(open) => {
                        proof {
                            lemma_find_char_from_props(t@, ']', open as int);
                        }
                        match find_char_from_exec(t.as_slice(), ']', open) {
                            Some(close) => {
                                let inner = slice_chars(t.as_slice(), open + 1, close);
                                return list_items_exec(inner.as_slice());
                            },
                            None => {},
                        }
                    },
                    None => {},
                }
            },
            None => {},
        }
        return Vec::new();
    }
    assert(all.skip(i as int) =~= Seq::<Seq<char>>::empty());
    Vec::new()
}

// ---------------------------------------------------------------------------
// sentinel.toml
// ---------------------------------------------------------------------------

/// The map that a sequence of insertions leaves: later ones win.
pub open spec fn inserted(log: Seq<(Seq<char>, Seq<char>)>) -> Map<Seq<char>, Seq<char>>
    decreases log.len(),
{
    if log.len() == 0 {
        Map::empty()
    } else {
        inserted(log.drop_last()).insert(log.last().0, log.last().1)
    }
}

/// The `[android]` entries read so far from `lines`, given whether the scan
/// is inside the `[android]` table: each `key = value` line there records
/// the trimmed key and the trimmed, unquoted value, when that is not empty.
pub open spec fn toml_entries(lines: Seq<Seq<char>>, android: bool) -> Seq<(Seq<char>, Seq<char>)>
    decreases lines.len(),
{
    if lines.len() == 0 {
        seq![]
    } else {
        let t = trim(lines[0]);
        let rest = lines.drop_first();
        if t.len() == 0 || t[0] == '#' {
            toml_entries(rest, android)
        } else if t[0] == '[' && t.last() == ']' {
            toml_entries(rest, t == "[android]"@)
        } else {
            match split_once_char(t, '=') {
                Some((k, v)) => {
                    let value = trim_matches(trim(v), '"');
                    if android && value.len() > 0 {
                        seq![(trim(k), value)] + toml_entries(rest, android)
                    } else {
                        toml_entries(rest, android)
                    }
                },
                None => toml_entries(rest, android),
            }
        }
    }
}

/// The `[android]` table of a `sentinel.toml`: `activity`, `icon`,
/// `assets`, `screen_orientation`.
pub struct SentinelToml {
    entries: Vec<(String, String)>,
}

impl SentinelToml {
    /// The entries in the order they were read.
    pub closed spec fn log(&self) -> Seq<(Seq<char>, Seq<char>)> {
        self.entries@.map_values(|e: (String, String)| (e.0@, e.1@))
    }

    /// The key/value map of the table (a repeated key keeps its last value).
    pub open spec fn view(&self) -> Map<Seq<char>, Seq<char>> {
        inserted(self.log())
    }

    /// The value of `key`.
    pub fn get(&self, key: &str) -> (r: Option<String>)
        ensures
            match r {
                Some(v) => self@.contains_key(key@) && self@[key@] == v@,
                None => !self@.contains_key(key@),
            },
    {
        let k = chars_of(key);
        let ghost log = self.log();
        let mut i: usize = self.entries.len();
        while i > 0
            invariant
                i <= self.entries.len(),
                log == self.log(),
                log.len() == self.entries.len(),
                k@ == key@,
                forall|j: int| i <= j < log.len() ==> log[j].0 != key@,
            decreases i,
        {
            let ek = chars_of(self.entries[i - 1].0.as_str());
            if chars_eq(ek.as_slice(), k.as_slice()) {
                let v = self.entries[i - 1].1.clone();
                proof {
                    assert(log[i - 1].0 == key@);
                    lemma_inserted_last(log, i - 1, key@);
                }
                return Some(string_of(chars_of(v.as_str()).as_slice()));
            }
            i = i - 1;
        }
        proof {
            lemma_inserted_absent(log, key@);
        }
        None
    }

    /// Whether the table holds no entry.
    pub fn is_empty(&self) -> (r: bool)
        ensures
            r == (self@.dom().len() == 0),
    {
        proof {
            lemma_inserted_empty(self.log());
        }
        self.entries.len() == 0
    }
}

proof fn lemma_inserted_last(log: Seq<(Seq<char>, Seq<char>)>, j: int, key: Seq<char>)
    requires
        0 <= j < log.len(),
        log[j].0 == key,
        forall|m: int| j < m < log.len() ==> log[m].0 != key,
    ensures
        inserted(log).contains_key(key),
        inserted(log)[key] == log[j].1,
    decreases log.len(),
{
    if j < log.len() - 1 {
        assert(log.drop_last()[j] == log[j]);
        lemma_inserted_last(log.drop_last(), j, key);
    }
}

proof fn lemma_inserted_absent(log: Seq<(Seq<char>, Seq<char>)>, key: Seq<char>)
    requires
        forall|m: int| 0 <= m < log.len() ==> log[m].0 != key,
    ensures
        !inserted(log).contains_key(key),
    decreases log.len(),
{
    if log.len() > 0 {
        lemma_inserted_absent(log.drop_last(), key);
    }
}

proof fn lemma_inserted_empty(log: Seq<(Seq<char>, Seq<char>)>)
    ensures
        inserted(log).dom().finite(),
        (inserted(log).dom().len() == 0) == (log.len() == 0),
    decreases log.len(),
{
    if log.len() > 0 {
        lemma_inserted_empty(log.drop_last());
        assert(inserted(log).dom().contains(log.last().0));
        assert(inserted(log).dom().len() > 0);
    }
}

/// Read the `[android]` table of a `sentinel.toml`. Comment and blank lines
/// are skipped; a `[section]` line starts another table; in `[android]`,
/// each `key = value` line gives the trimmed key the trimmed value without
/// its quotes, unless that is empty.
pub fn parse_sentinel_toml(content: &str) -> (r: SentinelToml)
    ensures
        r.log() == toml_entries(split_lines(content@), false),
{
    let cs = chars_of(content);
    let lines = lines_exec(cs.as_slice());
    let ghost all = char_vecs(lines@);
    let mut entries: Vec<(String, String)> = Vec::new();
    let mut android = false;
    let mut i: usize = 0;
    let header = chars_of("[android]");
    assert(all.skip(0) =~= all);
    while i < lines.len()
        invariant
            i <= lines.len(),
            all == char_vecs(lines@),
            all == split_lines(content@),
            header@ == "[android]"@,
            entries@.map_values(|e: (String, String)| (e.0@, e.1@)) + toml_entries(
                all.skip(i as int),
                android,
            ) == toml_entries(all, false),
        decreases lines.len() - i,
    {
        let ghost rest = all.skip(i as int);
        assert(rest.drop_first() =~= all.skip(i + 1));
        assert(rest[0] == lines@[i as int]@);
        let ghost before = entries@.map_values(|e: (String, String)| (e.0@, e.1@));
        let t = trim_chars(lines[i].as_slice());
        if t.len() == 0 || t[0] == '#' {
            i = i + 1;
            continue;
        }
        if t[0] == '[' && t[t.len() - 1] == ']' {
            android = chars_eq(t.as_slice(), header.as_slice());
            i = i + 1;
            continue;
        }
        match split_once_char_exec(t.as_slice(), '=') {
            Some((k, v)) => {
                let vt = trim_chars(v.as_slice());
                let value = trim_matches_exec(vt.as_slice(), '"');
                if android && value.len() > 0 {
                    let kt = trim_chars(k.as_slice());
                    entries.push((string_of(kt.as_slice()), string_of(value.as_slice())));
                    assert(entries@.map_values(|e: (String, String)| (e.0@, e.1@)) =~= before.push(
                        (kt@, value@),
                    ));
                    assert(before + toml_entries(rest, android) =~= entries@.map_values(
                        |e: (String, String)| (e.0@, e.1@),
                    ) + toml_entries(all.skip(i + 1), android));
                }
            },
            None => {},
        }
        i = i + 1;
    }
    assert(all.skip(i as int) =~= Seq::<Seq<char>>::empty());
    let r = SentinelToml { entries };
    assert(r.log() =~= entries@.map_values(|e: (String, String)| (e.0@, e.1@)));
    r
}

// ---------------------------------------------------------------------------
// Command line
// ---------------------------------------------------------------------------

/// The value of `flag` in `args` from position `i`: the argument after the
/// first `flag` (none if it is the last), or the rest of the first
/// `flag=value`, whichever comes first.
pub open spec fn cli_value_from(args: Seq<Seq<char>>, flag: Seq<char>, i: int) -> Option<
    Seq<char>,
>
    decreases args.len() - i,
{
    if i < 0 || i >= args.len() {
        None
    } else if args[i] == flag {
        if i + 1 < args.len() {
            Some(args[i + 1])
        } else {
            None
        }
    } else if starts_with(args[i], flag.push('=')) {
        Some(args[i].skip(flag.len() + 1int))
    } else {
        cli_value_from(args, flag, i + 1)
    }
}

/// Parse a `--flag value` or `--flag=value` argument.
pub fn parse_cli_value(args: &[String], flag: &str) -> (r: Option<String>)
    ensures
        match r {
            Some(v) => cli_value_from(strs(args@), flag@, 0) == Some(v@),
            None => cli_value_from(strs(args@), flag@, 0) is None,
        },
{
    let f = chars_of(flag);
    let mut eq_prefix = chars_of(flag);
    eq_prefix.push('=');
    let mut i: usize = 0;
    while i < args.len()
        invariant
            i <= args.len(),
            f@ == flag@,
            eq_prefix@ == flag@.push('='),
            cli_value_from(strs(args@), flag@, i as int) == cli_value_from(strs(args@), flag@, 0),
        decreases args.len() - i,
    {
        let a = chars_of(args[i].as_str());
        if chars_eq(a.as_slice(), f.as_slice()) {
            if i + 1 < args.len() {
                let v = chars_of(args[i + 1].as_str());
                return Some(string_of(v.as_slice()));
            }
            return None;
        }
        if starts_with_exec(a.as_slice(), eq_prefix.as_slice()) {
            let v = slice_chars(a.as_slice(), eq_prefix.len(), a.len());
            assert(v@ =~= a@.skip(flag@.len() + 1int));
            return Some(string_of(v.as_slice()));
        }
        i = i + 1;
    }
    None
}

/// `--activity <fqcn>`: the activity to prepare.
pub fn parse_activity_cli(args: &[String]) -> (r: Option<String>)
    ensures
        match r {
            Some(v) => cli_value_from(strs(args@), "--activity"@, 0) == Some(v@),
            None => cli_value_from(strs(args@), "--activity"@, 0) is None,
        },
{
    parse_cli_value(args, "--activity")
}

/// `--app <name>`: the consumer app to build for, in a workspace with more
/// than one consumer.
pub fn parse_app_cli(args: &[String]) -> (r: Option<String>)
    ensures
        match r {
            Some(v) => cli_value_from(strs(args@), "--app"@, 0) == Some(v@),
            None => cli_value_from(strs(args@), "--app"@, 0) is None,
        },
{
    parse_cli_value(args, "--app")
}

/// Some argument equals `a` or `b`.
pub open spec fn has_flag(args: Seq<Seq<char>>, a: Seq<char>, b: Seq<char>) -> bool {
    exists|i: int| 0 <= i < args.len() && (args[i] == a || args[i] == b)
}

fn any_flag(args: &[String], a: &str, b: &str) -> (r: bool)
    ensures
        r == has_flag(strs(args@), a@, b@),
{
    let ca = chars_of(a);
    let cb = chars_of(b);
    let mut i: usize = 0;
    while i < args.len()
        invariant
            i <= args.len(),
            ca@ == a@,
            cb@ == b@,
            forall|j: int| 0 <= j < i ==> strs(args@)[j] != a@ && strs(args@)[j] != b@,
        decreases args.len() - i,
    {
        let x = chars_of(args[i].as_str());
        if chars_eq(x.as_slice(), ca.as_slice()) || chars_eq(x.as_slice(), cb.as_slice()) {
            assert(strs(args@)[i as int] == x@);
            return true;
        }
        i = i + 1;
    }
    false
}

/// `--release` or `-r`: build the release variant.
pub fn parse_release_cli(args: &[String]) -> (r: bool)
    ensures
        r == has_flag(strs(args@), "--release"@, "-r"@),
{
    any_flag(args, "--release", "-r")
}

/// `--aab` or `--bundle`: build an app bundle.
pub fn parse_aab_cli(args: &[String]) -> (r: bool)
    ensures
        r == has_flag(strs(args@), "--aab"@, "--bundle"@),
{
    any_flag(args, "--aab", "--bundle")
}

// ---------------------------------------------------------------------------
// Build outputs
// ---------------------------------------------------------------------------

/// `PathBuf::join` on paths written with `/`: an absolute `rel` (starting
/// with `/`) replaces `base`; otherwise `rel` is appended after a `/`
/// unless `base` is empty or already ends with one.
pub open spec fn path_join(base: Seq<char>, rel: Seq<char>) -> Seq<char> {
    if rel.len() > 0 && rel[0] == '/' {
        rel
    } else if base.len() == 0 {
        rel
    } else if base.last() == '/' {
        base + rel
    } else {
        base + seq!['/'] + rel
    }
}

/// `base` joined with the path `rel`.
pub fn join_path(base: &str, rel: &str) -> (r: String)
    ensures
        r@ == path_join(base@, rel@),
{
    let rc = chars_of(rel);
    if rc.len() > 0 && rc[0] == '/' {
        return string_of(rc.as_slice());
    }
    let mut out = chars_of(base);
    if out.len() > 0 && out[out.len() - 1] != '/' {
        out.push('/');
    }
    push_chars(&mut out, rc.as_slice());
    string_of(out.as_slice())
}

/// The writable directory every Gradle module redirects its build output
/// into: `sentinel-build` inside the consumer's Android project.
pub fn sentinel_build_root(project_path: &str) -> (r: String)
    ensures
        r@ == path_join(project_path@, "sentinel-build"@),
{
    join_path(project_path, "sentinel-build")
}

/// The `-PsentinelBuildRoot=<dir>` Gradle argument, with `\` written as
/// `/` so that it is valid in Gradle on Windows.
pub fn sentinel_build_root_arg(project_path: &str) -> (r: String)
    ensures
        r@ == "-PsentinelBuildRoot="@ + crate::text::map_char(
            path_join(project_path@, "sentinel-build"@),
            '\\',
            '/',
        ),
{
    let root = sentinel_build_root(project_path);
    let rc = chars_of(root.as_str());
    let slashed = crate::text::map_char_exec(rc.as_slice(), '\\', '/');
    let mut out = chars_of("-PsentinelBuildRoot=");
    push_chars(&mut out, slashed.as_slice());
    string_of(out.as_slice())
}

// ---------------------------------------------------------------------------
// Where the tool looks
// ---------------------------------------------------------------------------

/// `apps/<app>/<name>`: a file of the app `app` in a workspace of apps.
pub open spec fn app_file(app: Seq<char>, name: Seq<char>) -> Seq<char> {
    "apps/"@ + app + seq!['/'] + name
}

/// `Vec::dedup`: runs of equal neighbours collapsed to one.
pub open spec fn dedup_neighbours(s: Seq<Seq<char>>) -> Seq<Seq<char>>
    decreases s.len(),
{
    if s.len() <= 1 {
        s
    } else if s.last() == s.drop_last().last() {
        dedup_neighbours(s.drop_last())
    } else {
        dedup_neighbours(s.drop_last()).push(s.last())
    }
}

proof fn lemma_dedup_last(s: Seq<Seq<char>>)
    requires
        s.len() > 0,
    ensures
        dedup_neighbours(s).len() > 0,
        dedup_neighbours(s).last() == s.last(),
    decreases s.len(),
{
    if s.len() > 1 && s.last() == s.drop_last().last() {
        lemma_dedup_last(s.drop_last());
    }
}

/// `s` with runs of equal neighbours collapsed, order kept.
fn dedup_strings(s: Vec<String>) -> (r: Vec<String>)
    ensures
        strs(r@) == dedup_neighbours(strs(s@)),
{
    let mut out: Vec<String> = Vec::new();
    let mut i: usize = 0;
    while i < s.len()
        invariant
            i <= s.len(),
            strs(out@) == dedup_neighbours(strs(s@).take(i as int)),
        decreases s.len() - i,
    {
        let ghost t = strs(s@).take(i + 1);
        assert(t.drop_last() =~= strs(s@).take(i as int));
        assert(t.last() == s@[i as int]@);
        if i > 0 {
            proof {
                lemma_dedup_last(strs(s@).take(i as int));
            }
            assert(out@.len() > 0);
            let last_eq = str_eq_chars(out[out.len() - 1].as_str(), s[i].as_str());
            assert(out@.last()@ == strs(out@).last());
            if !last_eq {
                let ghost prev = out@;
                out.push(s[i].clone());
                assert(strs(out@) =~= strs(prev).push(s@[i as int]@));
            }
        } else {
            out.push(s[i].clone());
            assert(strs(out@) =~= seq![s@[0]@]);
            assert(t =~= seq![s@[0]@]);
        }
        i = i + 1;
    }
    assert(strs(s@).take(s.len() as int) =~= strs(s@));
    out
}

/// Whether two strings hold the same characters.
fn str_eq_chars(a: &str, b: &str) -> (r: bool)
    ensures
        r == (a@ == b@),
{
    chars_eq(chars_of(a).as_slice(), chars_of(b).as_slice())
}

/// Where `sentinel.toml` is looked for, in order: with `--app <app>`, that
/// app's own file, then the workspace's; otherwise the workspace's, then
/// the file in each directory `app_dirs` lists (the entries of `apps`).
/// Neighbouring duplicates are dropped.
pub open spec fn sentinel_toml_search(app: Option<Seq<char>>, app_dirs: Seq<Seq<char>>) -> Seq<
    Seq<char>,
> {
    dedup_neighbours(
        match app {
            Some(a) => seq![app_file(a, "sentinel.toml"@), "sentinel.toml"@],
            None => seq!["sentinel.toml"@] + app_dirs.map_values(
                |d: Seq<char>| path_join(d, "sentinel.toml"@),
            ),
        },
    )
}

/// The paths `build_sentinel` tries for `sentinel.toml`, in order.
pub fn sentinel_toml_candidates(app: Option<&str>, app_dirs: &[String]) -> (r: Vec<String>)
    ensures
        strs(r@) == sentinel_toml_search(
            match app {
                Some(a) => Some(a@),
                None => None,
            },
            strs(app_dirs@),
        ),
{
    let mut paths: Vec<String> = Vec::new();
    let ghost list: Seq<Seq<char>>;
    match app {
        Some(a) => {
            let mut own = chars_of("apps/");
            push_str_chars(&mut own, a);
            own.push('/');
            push_str_chars(&mut own, "sentinel.toml");
            paths.push(string_of(own.as_slice()));
            paths.push(string_of(chars_of("sentinel.toml").as_slice()));
            proof {
                list = seq![app_file(a@, "sentinel.toml"@), "sentinel.toml"@];
            }
            assert(paths@[0]@ =~= app_file(a@, "sentinel.toml"@));
            assert(strs(paths@) =~= list);
        },
        None => {
            paths.push(string_of(chars_of("sentinel.toml").as_slice()));
            let mut i: usize = 0;
            while i < app_dirs.len()
                invariant
                    i <= app_dirs.len(),
                    strs(paths@) == seq!["sentinel.toml"@] + strs(app_dirs@).take(i as int).map_values(
                        |d: Seq<char>| path_join(d, "sentinel.toml"@),
                    ),
                decreases app_dirs.len() - i,
            {
                let ghost prev = paths@;
                paths.push(join_path(app_dirs[i].as_str(), "sentinel.toml"));
                i = i + 1;
                assert(strs(app_dirs@).take(i as int).map_values(
                    |d: Seq<char>| path_join(d, "sentinel.toml"@),
                ) =~= strs(app_dirs@).take(i - 1).map_values(
                    |d: Seq<char>| path_join(d, "sentinel.toml"@),
                ).push(path_join(app_dirs@[i - 1]@, "sentinel.toml"@)));
                assert(strs(paths@) =~= strs(prev).push(path_join(app_dirs@[i - 1]@, "sentinel.toml"@)));
            }
            assert(strs(app_dirs@).take(app_dirs.len() as int) =~= strs(app_dirs@));
            proof {
                list = seq!["sentinel.toml"@] + strs(app_dirs@).map_values(
                    |d: Seq<char>| path_join(d, "sentinel.toml"@),
                );
            }
        },
    }
    dedup_strings(paths)
}

/// Where an app's `Cargo.toml` is looked for, in order: under `apps`, in a
/// sibling directory, the current directory, and one level up.
pub open spec fn app_cargo_search(app: Seq<char>) -> Seq<Seq<char>> {
    seq![
        app_file(app, "Cargo.toml"@),
        app + "/Cargo.toml"@,
        "Cargo.toml"@,
        "../"@ + app + "/Cargo.toml"@,
    ]
}

/// The paths `build_sentinel --app <app>` tries for the app's `Cargo.toml`.
pub fn app_cargo_candidates(app: &str) -> (r: Vec<String>)
    ensures
        strs(r@) == app_cargo_search(app@),
{
    let mut a = chars_of("apps/");
    push_str_chars(&mut a, app);
    a.push('/');
    push_str_chars(&mut a, "Cargo.toml");
    let mut b = chars_of(app);
    push_str_chars(&mut b, "/Cargo.toml");
    let c = chars_of("Cargo.toml");
    let mut d = chars_of("../");
    push_str_chars(&mut d, app);
    push_str_chars(&mut d, "/Cargo.toml");
    let mut r: Vec<String> = Vec::new();
    r.push(string_of(a.as_slice()));
    r.push(string_of(b.as_slice()));
    r.push(string_of(c.as_slice()));
    r.push(string_of(d.as_slice()));
    assert(r@[0]@ =~= app_file(app@, "Cargo.toml"@));
    assert(r@[1]@ =~= app@ + "/Cargo.toml"@);
    assert(r@[3]@ =~= "../"@ + app@ + "/Cargo.toml"@);
    assert(strs(r@) =~= app_cargo_search(app@));
    r
}

/// The Android project a dx build leaves in a build directory `dir`:
/// `release/android/app` or `debug/android/app` below it.
pub open spec fn android_project_in(dir: Seq<char>, release: bool) -> Seq<char> {
    path_join(dir, (if release { "release"@ } else { "debug"@ }) + "/android/app"@)
}

/// The Android project path inside the dx build directory `dir`.
pub fn android_project_path(dir: &str, release: bool) -> (r: String)
    ensures
        r@ == android_project_in(dir@, release),
{
    let mut rel = if release {
        chars_of("release")
    } else {
        chars_of("debug")
    };
    push_str_chars(&mut rel, "/android/app");
    let rel_s = string_of(rel.as_slice());
    join_path(dir, rel_s.as_str())
}

// ---------------------------------------------------------------------------
// What the tool builds
// ---------------------------------------------------------------------------

/// The Gradle task `build_sentinel` runs, the artifact it names and where
/// that artifact lands inside the Android project.
#[derive(Debug, Clone, Copy, PartialEq, Eq)]
pub struct BuildTarget {
    pub task: &'static str,
    pub label: &'static str,
    pub output: &'static str,
}

/// The build for the flags: an App Bundle with `--aab`, else a release APK
/// with `--release`, else a debug APK.
pub open spec fn build_target_spec(release: bool, bundle_aab: bool) -> BuildTarget {
    if bundle_aab {
        BuildTarget {
            task: ":app:bundleRelease",
            label: "AAB",
            output: "app/build/outputs/bundle/release/app-release.aab",
        }
    } else if release {
        BuildTarget {
            task: ":app:assembleRelease",
            label: "release APK",
            output: "app/build/outputs/apk/release/app-release-unsigned.apk",
        }
    } else {
        BuildTarget {
            task: ":app:assembleDebug",
            label: "APK",
            output: "app/build/outputs/apk/debug/app-debug.apk",
        }
    }
}

/// The Gradle task, artifact label and output path for the flags.
pub fn build_target(release: bool, bundle_aab: bool) -> (r: BuildTarget)
    ensures
        r == build_target_spec(release, bundle_aab),
{
    if bundle_aab {
        BuildTarget {
            task: ":app:bundleRelease",
            label: "AAB",
            output: "app/build/outputs/bundle/release/app-release.aab",
        }
    } else if release {
        BuildTarget {
            task: ":app:assembleRelease",
            label: "release APK",
            output: "app/build/outputs/apk/release/app-release-unsigned.apk",
        }
    } else {
        BuildTarget {
            task: ":app:assembleDebug",
            label: "APK",
            output: "app/build/outputs/apk/debug/app-debug.apk",
        }
    }
}

/// The launcher icon's file name for an icon with extension `ext`
/// (`webp` when it has none), and the name of the icon in the other format
/// that it replaces.
pub open spec fn icon_names_spec(ext: Option<Seq<char>>) -> (Seq<char>, Seq<char>) {
    let e = match ext {
        Some(x) => x,
        None => "webp"@,
    };
    (
        "ic_launcher."@ + e,
        if e == "webp"@ {
            "ic_launcher.png"@
        } else {
            "ic_launcher.webp"@
        },
    )
}

/// The launcher icon's file name and the stale icon it replaces.
pub fn icon_names(ext: Option<&str>) -> (r: (String, String))
    ensures
        (r.0@, r.1@) == icon_names_spec(
            match ext {
                Some(x) => Some(x@),
                None => None,
            },
        ),
{
    let e = match ext {
        Some(x) => chars_of(x),
        None => chars_of("webp"),
    };
    let mut name = chars_of("ic_launcher.");
    push_chars(&mut name, e.as_slice());
    let webp = chars_of("webp");
    let other = if chars_eq(e.as_slice(), webp.as_slice()) {
        "ic_launcher.png"
    } else {
        "ic_launcher.webp"
    };
    (string_of(name.as_slice()), string_of(chars_of(other).as_slice()))
}

/// The capability ids named by a capability file: its trimmed, non-empty
/// lines.
pub open spec fn listed_ids(lines: Seq<Seq<char>>) -> Set<Seq<char>> {
    Set::new(
        |id: Seq<char>|
            id.len() > 0 && exists|i: int| 0 <= i < lines.len() && #[trigger] trim(lines[i]) == id,
    )
}

/// The capability ids recorded in an `enabled_capabilities.txt`: the
/// trimmed non-empty lines, sorted and de-duplicated.
pub fn capability_file_ids(contents: &str) -> (r: Vec<String>)
    ensures
        sorted_enumeration(strs(r@), listed_ids(split_lines(contents@))),
{
    let cs = chars_of(contents);
    let lines = lines_exec(cs.as_slice());
    let ghost all = char_vecs(lines@);
    let mut found: Vec<Vec<char>> = Vec::new();
    let mut i: usize = 0;
    while i < lines.len()
        invariant
            i <= lines.len(),
            all == char_vecs(lines@),
            strictly_sorted(char_vecs(found@)),
            forall|x: Seq<char>|
                char_vecs(found@).to_set().contains(x) <==> (x.len() > 0 && exists|j: int|
                    0 <= j < i && #[trigger] trim(all[j]) == x),
        decreases lines.len() - i,
    {
        let id = trim_chars(lines[i].as_slice());
        let ghost before = char_vecs(found@).to_set();
        assert(all[i as int] == lines@[i as int]@);
        if id.len() > 0 {
            sorted_insert(&mut found, id);
        }
        proof {
            assert forall|x: Seq<char>|
                char_vecs(found@).to_set().contains(x) <==> (x.len() > 0 && exists|j: int|
                    0 <= j < i + 1 && #[trigger] trim(all[j]) == x) by {
                if x.len() > 0 && exists|j: int| 0 <= j < i + 1 && #[trigger] trim(all[j]) == x {
                    let j = choose|j: int| 0 <= j < i + 1 && #[trigger] trim(all[j]) == x;
                    if j < i {
                        assert(before.contains(x));
                    }
                }
                if char_vecs(found@).to_set().contains(x) && !before.contains(x) {
                    assert(x == id@);
                    assert(trim(all[i as int]) == x);
                }
            }
        }
        i = i + 1;
    }
    assert(char_vecs(found@).to_set() =~= listed_ids(split_lines(contents@)));
    let r = strings_of(&found);
    r
}

/// The activity named on the first manifest line that holds `<activity` and
/// `android:name=`: the text between `android:name="` and the next `"`.
/// `None` as soon as such a line lacks either quote.
pub open spec fn activity_from_lines(lines: Seq<Seq<char>>) -> Option<Seq<char>>
    decreases lines.len(),
{
    if lines.len() == 0 {
        None
    } else {
        let line = lines[0];
        if contains(line, "<activity"@) && contains(line, "android:name="@) {
            match find(line, "android:name=\""@) {
                Some(p) => match find_char_from(line, '"', p + 14) {
                    Some(e) => Some(line.subrange(p + 14, e)),
                    None => None,
                },
                None => None,
            }
        } else {
            activity_from_lines(lines.drop_first())
        }
    }
}

/// Detect the main activity from the manifest text, when neither the command
/// line nor `sentinel.toml` names one.
pub fn activity_from_manifest(content: &str) -> (r: Option<String>)
    ensures
        match r {
            Some(a) => activity_from_lines(split_lines(content@)) == Some(a@),
            None => activity_from_lines(split_lines(content@)) is None,
        },
{
    let cs = chars_of(content);
    let lines = lines_exec(cs.as_slice());
    let ghost all = char_vecs(lines@);
    let key = chars_of("android:name=\"");
    let mut i: usize = 0;
    assert(all.skip(0) =~= all);
    while i < lines.len()
        invariant
            i <= lines.len(),
            all == char_vecs(lines@),
            all == split_lines(content@),
            key@ == "android:name=\""@,
            activity_from_lines(all.skip(i as int)) == activity_from_lines(all),
        decreases lines.len() - i,
    {
        let ghost rest = all.skip(i as int);
        assert(rest.drop_first() =~= all.skip(i + 1));
        assert(rest[0] == lines@[i as int]@);
        let line = &lines[i];
        if contains_str(line.as_slice(), "<activity") && contains_str(
            line.as_slice(),
            "android:name=",
        ) {
            match find_exec(line.as_slice(), key.as_slice()) {
                Some(p) => {
                    proof {
                        lemma_find_from_props(line@, key@, 0);
                        reveal_strlit("android:name=\"");
                        assert(p + 14 <= line.len());
                    }
                    let start = p + 14;
                    proof {
                        lemma_find_char_from_props(line@, '"', start as int);
                    }
                    match find_char_from_exec(line.as_slice(), '"', start) {
                        Some(e) => {
                            let name = slice_chars(line.as_slice(), start, e);
                            return Some(string_of(name.as_slice()));
                        },
                        None => {
                            return None;
                        },
                    }
                },
                None => {
                    return None;
                },
            }
        }
        i = i + 1;
    }
    assert(all.skip(i as int) =~= Seq::<Seq<char>>::empty());
    None
}

} // verus!
