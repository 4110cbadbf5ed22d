//! Why re-running the Gradle wiring is safe: rewriting `settings.gradle`
//! replaces the previous block, so the result of a second run depends only
//! on the original file and the second run's modules — toggling
//! capabilities never leaves stale includes.
use vstd::prelude::*;

use crate::build::helper::{
    dependencies_block, dependencies_edit, dependency_lines, joined_lines, kept_lines,
    settings_block, settings_edit, settings_includes, strip_marker_block_spec, GRADLE_MARKER,
};
use crate::build::manifest_laws::{
    lemma_contains_at, lemma_kept_concat, lemma_lines_of_one, lemma_marker_free_state,
    lemma_prefix_free, lemma_split_lines_concat, lemma_strip_insert, marker_free, no_newline, scan_state,
};
use crate::text::{
    contains, find, find_char_from, is_ws, lemma_find_char_from_props, lemma_find_from_first,
    lemma_find_from_props, lines_from, matches_at, split_lines, strip_cr, trim_end,
};

verus! {

/// A line without a newline and without a carriage return at its end.
pub open spec fn clean_line(l: Seq<char>) -> bool {
    no_newline(l) && !(l.len() > 0 && l.last() == '\r')
}

/// Every line is clean.
pub open spec fn clean_lines(ls: Seq<Seq<char>>) -> bool {
    forall|i: int| 0 <= i < ls.len() ==> clean_line(#[trigger] ls[i])
}

/// No line of `s` ends with a carriage return (one that `str::lines` does
/// not remove, as in `"\r\r\n"`).
pub open spec fn no_stray_cr(s: Seq<char>) -> bool {
    forall|i: int|
        0 <= i < split_lines(s).len() ==> !(#[trigger] split_lines(s)[i].len() > 0
            && split_lines(s)[i].last() == '\r')
}

proof fn lemma_lines_from_no_newline(s: Seq<char>, i: int)
    requires
        0 <= i,
    ensures
        forall|j: int| 0 <= j < lines_from(s, i).len() ==> no_newline(#[trigger] lines_from(s, i)[j]),
    decreases s.len() - i,
{
    if i < s.len() {
        lemma_find_char_from_props(s, '\n', i);
        match find_char_from(s, '\n', i) {
            Some(k) => {
                lemma_lines_from_no_newline(s, k + 1);
                let l = strip_cr(s.subrange(i, k));
                assert(no_newline(l)) by {
                    assert forall|q: int| 0 <= q < l.len() implies l[q] != '\n' by {
                        assert(l[q] == s[i + q]);
                    }
                }
                assert forall|j: int| 0 <= j < lines_from(s, i).len() implies no_newline(
                    #[trigger] lines_from(s, i)[j],
                ) by {
                    if j > 0 {
                        assert(lines_from(s, i)[j] == lines_from(s, k + 1)[j - 1]);
                    }
                }
            },
            None => {
                let l = s.subrange(i, s.len() as int);
                assert(no_newline(l)) by {
                    assert forall|q: int| 0 <= q < l.len() implies l[q] != '\n' by {
                        assert(l[q] == s[i + q]);
                    }
                }
            },
        }
    }
}

pub proof fn lemma_split_clean(s: Seq<char>)
    requires
        no_stray_cr(s),
    ensures
        clean_lines(split_lines(s)),
{
    lemma_lines_from_no_newline(s, 0);
    assert forall|i: int| 0 <= i < split_lines(s).len() implies clean_line(
        #[trigger] split_lines(s)[i],
    ) by {
        assert(no_newline(lines_from(s, 0)[i]));
    }
}

proof fn lemma_joined_ends(ls: Seq<Seq<char>>)
    ensures
        joined_lines(ls).len() > 0 ==> joined_lines(ls).last() == '\n',
        ls.len() > 0 ==> joined_lines(ls).len() > 0,
{
}

proof fn lemma_split_joined(ls: Seq<Seq<char>>)
    requires
        clean_lines(ls),
    ensures
        split_lines(joined_lines(ls)) == ls,
    decreases ls.len(),
{
    if ls.len() == 0 {
        assert(split_lines(joined_lines(ls)) =~= ls);
    } else {
        let p = ls.drop_last();
        let l = ls.last();
        assert(clean_lines(p)) by {
            assert forall|i: int| 0 <= i < p.len() implies clean_line(#[trigger] p[i]) by {
                assert(p[i] == ls[i]);
            }
        }
        assert(clean_line(ls[ls.len() - 1]));
        lemma_split_joined(p);
        lemma_joined_ends(p);
        lemma_split_lines_concat(joined_lines(p), l.push('\n'));
        lemma_lines_of_one(l);
        assert(split_lines(joined_lines(ls)) =~= ls);
    }
}

proof fn lemma_joined_front(ls: Seq<Seq<char>>)
    requires
        ls.len() > 0,
    ensures
        joined_lines(ls) == ls[0].push('\n') + joined_lines(ls.drop_first()),
    decreases ls.len(),
{
    if ls.len() > 1 {
        lemma_joined_front(ls.drop_last());
        assert(ls.drop_last().drop_first() =~= ls.drop_first().drop_last());
        assert(ls.drop_first().last() == ls.last());
    } else {
        assert(ls.drop_first() =~= Seq::<Seq<char>>::empty());
        assert(ls.drop_last() =~= Seq::<Seq<char>>::empty());
    }
}

/// The lines the marker scan keeps.
pub open spec fn kept_subseq(ls: Seq<Seq<char>>, m: Seq<char>, sk: bool) -> Seq<Seq<char>>
    decreases ls.len(),
{
    if ls.len() == 0 {
        seq![]
    } else if contains(ls[0], m) {
        kept_subseq(ls.drop_first(), m, !sk)
    } else if sk {
        kept_subseq(ls.drop_first(), m, sk)
    } else {
        seq![ls[0]] + kept_subseq(ls.drop_first(), m, sk)
    }
}

pub proof fn lemma_kept_joined(ls: Seq<Seq<char>>, m: Seq<char>, sk: bool)
    requires
        clean_lines(ls),
    ensures
        kept_lines(ls, m, sk) == joined_lines(kept_subseq(ls, m, sk)),
        clean_lines(kept_subseq(ls, m, sk)),
        marker_free(kept_subseq(ls, m, sk), m),
    decreases ls.len(),
{
    if ls.len() > 0 {
        let r = ls.drop_first();
        assert(clean_lines(r)) by {
            assert forall|i: int| 0 <= i < r.len() implies clean_line(#[trigger] r[i]) by {
                assert(r[i] == ls[i + 1]);
            }
        }
        assert(clean_line(ls[0]));
        let sk2 = if contains(ls[0], m) {
            !sk
        } else {
            sk
        };
        lemma_kept_joined(r, m, sk2);
        if !contains(ls[0], m) && !sk {
            let k = seq![ls[0]] + kept_subseq(r, m, sk);
            lemma_joined_front(k);
            assert(k[0] == ls[0]);
            assert(k.drop_first() =~= kept_subseq(r, m, sk));
            assert(clean_lines(k)) by {
                assert forall|i: int| 0 <= i < k.len() implies clean_line(#[trigger] k[i]) by {
                    if i > 0 {
                        assert(k[i] == kept_subseq(r, m, sk)[i - 1]);
                    }
                }
            }
            assert(marker_free(k, m)) by {
                assert forall|i: int| 0 <= i < k.len() implies !contains(#[trigger] k[i], m) by {
                    if i > 0 {
                        assert(k[i] == kept_subseq(r, m, sk)[i - 1]);
                    }
                }
            }
        }
    } else {
        assert(kept_lines(ls, m, sk) =~= joined_lines(kept_subseq(ls, m, sk)));
    }
}

// ---------------------------------------------------------------------------
// Trailing whitespace
// ---------------------------------------------------------------------------

proof fn lemma_trim_end_props(s: Seq<char>)
    ensures
        trim_end(s) == s.take(trim_end(s).len() as int),
        trim_end(s).len() <= s.len(),
        trim_end(s).len() > 0 ==> !is_ws(trim_end(s).last()),
        trim_end(trim_end(s)) == trim_end(s),
    decreases s.len(),
{
    if s.len() > 0 && is_ws(s.last()) {
        lemma_trim_end_props(s.drop_last());
        assert(s.drop_last().take(trim_end(s).len() as int) =~= s.take(trim_end(s).len() as int));
    } else {
        assert(s.take(s.len() as int) =~= s);
    }
}

proof fn lemma_trim_end_concat(a: Seq<char>, b: Seq<char>)
    ensures
        trim_end(a + b) == (if trim_end(b).len() > 0 {
            a + trim_end(b)
        } else {
            trim_end(a)
        }),
    decreases b.len(),
{
    if b.len() == 0 {
        assert(a + b =~= a);
    } else if is_ws(b.last()) {
        assert((a + b).drop_last() =~= a + b.drop_last());
        assert((a + b).last() == b.last());
        lemma_trim_end_concat(a, b.drop_last());
    } else {
        assert((a + b).last() == b.last());
    }
}

proof fn lemma_contains_prefix(s: Seq<char>, n: int, m: Seq<char>)
    requires
        0 <= n <= s.len(),
        contains(s.take(n), m),
    ensures
        contains(s, m),
{
    lemma_find_from_props(s.take(n), m, 0);
    let k = find(s.take(n), m)->0;
    assert(s.subrange(k, k + m.len()) =~= s.take(n).subrange(k, k + m.len()));
    lemma_contains_at(s, m, k);
}

/// The text without its trailing whitespace, plus a newline, is again a
/// sequence of clean, marker-free lines.
proof fn lemma_trimmed_joined(ls: Seq<Seq<char>>, m: Seq<char>) -> (r: Seq<Seq<char>>)
    requires
        clean_lines(ls),
        marker_free(ls, m),
        m.len() > 0,
    ensures
        joined_lines(r) == trim_end(joined_lines(ls)).push('\n'),
        clean_lines(r),
        marker_free(r, m),
    decreases ls.len(),
{
    if ls.len() == 0 {
        let r = seq![Seq::<char>::empty()];
        assert(joined_lines(ls) =~= Seq::<char>::empty());
        assert(r.drop_last() =~= Seq::<Seq<char>>::empty());
        assert(r.last() == Seq::<char>::empty());
        assert(joined_lines(Seq::<Seq<char>>::empty()) =~= Seq::<char>::empty());
        assert(Seq::<char>::empty().push('\n') =~= seq!['\n']);
        assert(joined_lines(r) =~= seq!['\n']);
        assert(!contains(Seq::<char>::empty(), m));
        assert(clean_lines(r)) by {
            assert(clean_line(r[0]));
        }
        assert(marker_free(r, m)) by {
            assert(!contains(r[0], m));
        }
        r
    } else {
        let p = ls.drop_last();
        let k = ls.last();
        assert(clean_lines(p)) by {
            assert forall|i: int| 0 <= i < p.len() implies clean_line(#[trigger] p[i]) by {
                assert(p[i] == ls[i]);
            }
        }
        assert(marker_free(p, m)) by {
            assert forall|i: int| 0 <= i < p.len() implies !contains(#[trigger] p[i], m) by {
                assert(p[i] == ls[i]);
            }
        }
        assert(clean_line(ls[ls.len() - 1]));
        assert(!contains(ls[ls.len() - 1], m));
        lemma_trim_end_concat(joined_lines(p), k.push('\n'));
        assert(trim_end(k.push('\n')) == trim_end(k)) by {
            assert(k.push('\n').drop_last() =~= k);
        }
        let tk = trim_end(k);
        if tk.len() > 0 {
            lemma_trim_end_props(k);
            let r = p.push(tk);
            assert(r.drop_last() =~= p);
            assert(clean_lines(r)) by {
                assert forall|i: int| 0 <= i < r.len() implies clean_line(#[trigger] r[i]) by {
                    if i < p.len() {
                        assert(r[i] == p[i]);
                    } else {
                        assert(r[i] == tk);
                        assert forall|q: int| 0 <= q < tk.len() implies tk[q] != '\n' by {
                            assert(tk[q] == k[q]);
                        }
                    }
                }
            }
            assert(marker_free(r, m)) by {
                assert forall|i: int| 0 <= i < r.len() implies !contains(#[trigger] r[i], m) by {
                    if i < p.len() {
                        assert(r[i] == p[i]);
                    } else {
                        if contains(tk, m) {
                            lemma_contains_prefix(k, tk.len() as int, m);
                        }
                    }
                }
            }
            assert(joined_lines(r) =~= (joined_lines(p) + tk).push('\n'));
            r
        } else {
            lemma_trimmed_joined(p, m)
        }
    }
}

// ---------------------------------------------------------------------------
// The settings block
// ---------------------------------------------------------------------------

/// The lines between the two marker lines of the settings block.
pub open spec fn settings_inner(path: Seq<char>, modules: Seq<Seq<char>>) -> Seq<char> {
    "include ':sentinel-core'\n"@ + "project(':sentinel-core').projectDir = new File('"@ + path
        + "/core')\n"@ + settings_includes(path, modules)
}

proof fn lemma_settings_block_scan(path: Seq<char>, modules: Seq<Seq<char>>)
    requires
        marker_free(split_lines(settings_inner(path, modules)), GRADLE_MARKER@),
    ensures
        settings_block(path, modules).len() > 0,
        settings_block(path, modules).last() == '\n',
        scan_state(split_lines(settings_block(path, modules)), GRADLE_MARKER@, false) == false,
        kept_lines(split_lines(settings_block(path, modules)), GRADLE_MARKER@, false)
            == Seq::<char>::empty(),
{
    let m = GRADLE_MARKER@;
    reveal_strlit("// ");
    reveal_strlit("\n");
    reveal_strlit("mobile-sentinel:modules");
    reveal_strlit("/core')\n");
    reveal_strlit("')\n");
    let y = "// "@ + m;
    let inner = settings_inner(path, modules);
    assert(no_newline(y));
    lemma_lines_of_one(y);
    assert(strip_cr(y) == y);
    assert(contains(y, m)) by {
        assert(y.subrange(3, 3 + m.len() as int) =~= m);
        lemma_contains_at(y, m, 3);
    }
    assert(inner.len() > 0 && inner.last() == '\n') by {
        if modules.len() > 0 {
            let inc = settings_includes(path, modules);
            assert(inc.last() == '\n');
            assert(inner.last() == inc.last());
        } else {
            assert(settings_includes(path, modules) =~= Seq::<char>::empty());
        }
    }
    let ml = y.push('\n');
    let b = settings_block(path, modules);
    assert(b =~= ml + (inner + ml));
    lemma_split_lines_concat(ml, inner + ml);
    lemma_split_lines_concat(inner, ml);
    let li = split_lines(inner);
    assert(split_lines(b) == seq![y] + (li + seq![y]));
    lemma_kept_concat(seq![y], li + seq![y], m, false);
    lemma_kept_concat(li, seq![y], m, true);
    lemma_marker_free_state(li, m, true);
    reveal_with_fuel(scan_state, 2);
    reveal_with_fuel(kept_lines, 2);
    assert(seq![y][0] == y);
    assert(seq![y].drop_first() =~= Seq::<Seq<char>>::empty());
}

/// Rewriting `settings.gradle` twice gives what rewriting the original file
/// once with the second modules gives: the first run's block leaves no
/// trace. (The file's lines must not end with a carriage return that line
/// splitting keeps, and the block's own lines must not hold the marker.)
pub proof fn law_settings_rewrite_replaces_block(
    content: Seq<char>,
    path: Seq<char>,
    first: Seq<Seq<char>>,
    second: Seq<Seq<char>>,
)
    requires
        no_stray_cr(content),
        marker_free(split_lines(settings_inner(path, first)), GRADLE_MARKER@),
    ensures
        settings_edit(settings_edit(content, path, first), path, second) == settings_edit(
            content,
            path,
            second,
        ),
{
    let m = GRADLE_MARKER@;
    reveal_strlit("mobile-sentinel:modules");
    assert(m.len() > 0);
    lemma_split_clean(content);
    let lines = split_lines(content);
    lemma_kept_joined(lines, m, false);
    let k = kept_subseq(lines, m, false);
    let stripped = strip_marker_block_spec(content, m);
    assert(stripped == joined_lines(k));
    let r = lemma_trimmed_joined(k, m);
    let x = trim_end(stripped).push('\n');
    assert(joined_lines(r) == x);
    let blk = settings_block(path, first);
    assert(settings_edit(content, path, first) =~= x + blk);
    lemma_settings_block_scan(path, first);
    lemma_split_joined(r);
    lemma_joined_ends(r);
    lemma_split_lines_concat(x, blk);
    lemma_kept_concat(r, split_lines(blk), m, false);
    lemma_marker_free_state(r, m, false);
    lemma_kept_joined(r, m, false);
    assert(kept_subseq(r, m, false) == r) by {
        lemma_kept_subseq_free(r, m);
    }
    assert(strip_marker_block_spec(x + blk, m) == x);
    lemma_trim_end_concat(trim_end(stripped), seq!['\n']);
    assert(trim_end(seq!['\n']) =~= Seq::<char>::empty()) by {
        reveal_with_fuel(trim_end, 2);
        assert(is_ws('\n'));
        assert(seq!['\n'].drop_last() =~= Seq::<char>::empty());
        assert(seq!['\n'].last() == '\n');
    }
    assert(trim_end(stripped) + seq!['\n'] =~= x);
    lemma_trim_end_props(stripped);
}

proof fn lemma_kept_subseq_free(ls: Seq<Seq<char>>, m: Seq<char>)
    requires
        marker_free(ls, m),
    ensures
        kept_subseq(ls, m, false) == ls,
    decreases ls.len(),
{
    if ls.len() > 0 {
        assert(!contains(ls[0], m));
        assert(marker_free(ls.drop_first(), m)) by {
            assert forall|i: int| 0 <= i < ls.drop_first().len() implies !contains(
                #[trigger] ls.drop_first()[i],
                m,
            ) by {
                assert(ls.drop_first()[i] == ls[i + 1]);
            }
        }
        lemma_kept_subseq_free(ls.drop_first(), m);
        assert(seq![ls[0]] + ls.drop_first() =~= ls);
    }
}

// ---------------------------------------------------------------------------
// The dependency block
// ---------------------------------------------------------------------------

/// The lines between the two marker lines of the dependency block.
pub open spec fn dependencies_inner(modules: Seq<Seq<char>>) -> Seq<char> {
    "    implementation(project(\":sentinel-core\"))\n"@ + dependency_lines(modules)
}

proof fn lemma_dependencies_block_scan(modules: Seq<Seq<char>>)
    requires
        marker_free(split_lines(dependencies_inner(modules)), GRADLE_MARKER@),
    ensures
        dependencies_block(modules).len() > 0,
        dependencies_block(modules).last() == '\n',
        scan_state(split_lines(dependencies_block(modules)), GRADLE_MARKER@, false) == false,
        kept_lines(split_lines(dependencies_block(modules)), GRADLE_MARKER@, false)
            == Seq::<char>::empty(),
{
    let m = GRADLE_MARKER@;
    reveal_strlit("    // ");
    reveal_strlit("\n");
    reveal_strlit("mobile-sentinel:modules");
    reveal_strlit("    implementation(project(\":sentinel-core\"))\n");
    reveal_strlit("\"))\n");
    let y = "    // "@ + m;
    let inner = dependencies_inner(modules);
    assert(no_newline(y));
    lemma_lines_of_one(y);
    assert(strip_cr(y) == y);
    assert(contains(y, m)) by {
        assert(y.subrange(7, 7 + m.len() as int) =~= m);
        lemma_contains_at(y, m, 7);
    }
    assert(inner.len() > 0 && inner.last() == '\n') by {
        if modules.len() > 0 {
            let d = dependency_lines(modules);
            assert(d.last() == '\n');
            assert(inner.last() == d.last());
        } else {
            assert(dependency_lines(modules) =~= Seq::<char>::empty());
        }
    }
    let ml = y.push('\n');
    let b = dependencies_block(modules);
    assert(b =~= ml + (inner + ml));
    lemma_split_lines_concat(ml, inner + ml);
    lemma_split_lines_concat(inner, ml);
    let li = split_lines(inner);
    assert(split_lines(b) == seq![y] + (li + seq![y]));
    lemma_kept_concat(seq![y], li + seq![y], m, false);
    lemma_kept_concat(li, seq![y], m, true);
    lemma_marker_free_state(li, m, true);
    reveal_with_fuel(scan_state, 2);
    reveal_with_fuel(kept_lines, 2);
    assert(seq![y][0] == y);
    assert(seq![y].drop_first() =~= Seq::<Seq<char>>::empty());
}

// ---------------------------------------------------------------------------
// Texts made of clean, marker-free lines
// ---------------------------------------------------------------------------

/// A text made of clean lines without the marker is what stripping it
/// gives, and its lines hold no marker.
pub proof fn lemma_normal_form(ls: Seq<Seq<char>>, m: Seq<char>)
    requires
        clean_lines(ls),
        marker_free(ls, m),
    ensures
        split_lines(joined_lines(ls)) == ls,
        kept_lines(ls, m, false) == joined_lines(ls),
{
    lemma_split_joined(ls);
    lemma_kept_joined(ls, m, false);
    lemma_kept_subseq_free(ls, m);
}

proof fn lemma_contains_sub(s: Seq<char>, i: int, j: int, m: Seq<char>)
    requires
        0 <= i <= j <= s.len(),
        contains(s.subrange(i, j), m),
    ensures
        contains(s, m),
{
    let t = s.subrange(i, j);
    lemma_find_from_props(t, m, 0);
    let k = find(t, m)->0;
    assert(s.subrange(i + k, i + k + m.len()) =~= t.subrange(k, k + m.len()));
    lemma_contains_at(s, m, i + k);
}

/// A newline inserted at position `j` of a text of clean, marker-free lines
/// (not just after a carriage return) splits a line in two; the text is
/// again made of clean, marker-free lines.
proof fn lemma_insert_newline(ls: Seq<Seq<char>>, m: Seq<char>, j: int) -> (r: Seq<Seq<char>>)
    requires
        clean_lines(ls),
        marker_free(ls, m),
        m.len() > 0,
        0 <= j <= joined_lines(ls).len(),
        j > 0 ==> joined_lines(ls)[j - 1] != '\r',
    ensures
        joined_lines(r) == joined_lines(ls).take(j) + seq!['\n'] + joined_lines(ls).skip(j),
        clean_lines(r),
        marker_free(r, m),
    decreases ls.len(),
{
    let t = joined_lines(ls);
    if ls.len() == 0 {
        let r = seq![Seq::<char>::empty()];
        assert(r.drop_last() =~= Seq::<Seq<char>>::empty());
        assert(r.last() == Seq::<char>::empty());
        assert(joined_lines(Seq::<Seq<char>>::empty()) =~= Seq::<char>::empty());
        assert(Seq::<char>::empty().push('\n') =~= seq!['\n']);
        assert(joined_lines(r) =~= seq!['\n']);
        assert(t =~= Seq::<char>::empty());
        assert(t.take(j) + seq!['\n'] + t.skip(j) =~= seq!['\n']);
        assert(!contains(Seq::<char>::empty(), m));
        assert(clean_line(r[0]));
        r
    } else {
        let p = ls.drop_last();
        let k = ls.last();
        let tp = joined_lines(p);
        assert(t == tp + k.push('\n'));
        assert(clean_lines(p)) by {
            assert forall|i: int| 0 <= i < p.len() implies clean_line(#[trigger] p[i]) by {
                assert(p[i] == ls[i]);
            }
        }
        assert(marker_free(p, m)) by {
            assert forall|i: int| 0 <= i < p.len() implies !contains(#[trigger] p[i], m) by {
                assert(p[i] == ls[i]);
            }
        }
        assert(clean_line(ls[ls.len() - 1]));
        assert(!contains(ls[ls.len() - 1], m));
        if j <= tp.len() {
            if j > 0 {
                assert(tp[j - 1] == t[j - 1]);
            }
            let r0 = lemma_insert_newline(p, m, j);
            let r = r0.push(k);
            assert(r.drop_last() =~= r0);
            assert(clean_lines(r)) by {
                assert forall|i: int| 0 <= i < r.len() implies clean_line(#[trigger] r[i]) by {
                    if i < r0.len() {
                        assert(r[i] == r0[i]);
                    }
                }
            }
            assert(marker_free(r, m)) by {
                assert forall|i: int| 0 <= i < r.len() implies !contains(#[trigger] r[i], m) by {
                    if i < r0.len() {
                        assert(r[i] == r0[i]);
                    }
                }
            }
            assert(joined_lines(r) =~= t.take(j) + seq!['\n'] + t.skip(j));
            r
        } else if j <= tp.len() + k.len() {
            let q = j - tp.len();
            let a = k.take(q);
            let b = k.skip(q);
            let r = p.push(a).push(b);
            assert(r.drop_last() =~= p.push(a));
            assert(p.push(a).drop_last() =~= p);
            assert(a.last() == t[j - 1]);
            assert(clean_lines(r)) by {
                assert forall|i: int| 0 <= i < r.len() implies clean_line(#[trigger] r[i]) by {
                    if i < p.len() {
                        assert(r[i] == p[i]);
                    } else if i == p.len() {
                        assert(r[i] == a);
                        assert forall|x: int| 0 <= x < a.len() implies a[x] != '\n' by {
                            assert(a[x] == k[x]);
                        }
                    } else {
                        assert(r[i] == b);
                        assert forall|x: int| 0 <= x < b.len() implies b[x] != '\n' by {
                            assert(b[x] == k[q + x]);
                        }
                        if b.len() > 0 {
                            assert(b.last() == k.last());
                        }
                    }
                }
            }
            assert(marker_free(r, m)) by {
                assert forall|i: int| 0 <= i < r.len() implies !contains(#[trigger] r[i], m) by {
                    if i < p.len() {
                        assert(r[i] == p[i]);
                    } else if i == p.len() {
                        if contains(a, m) {
                            assert(a =~= k.subrange(0, q));
                            lemma_contains_sub(k, 0, q, m);
                        }
                    } else {
                        if contains(b, m) {
                            assert(b =~= k.subrange(q, k.len() as int));
                            lemma_contains_sub(k, q, k.len() as int, m);
                        }
                    }
                }
            }
            assert(joined_lines(p.push(a)) == tp + a.push('\n'));
            assert(joined_lines(r) == joined_lines(p.push(a)) + b.push('\n'));
            assert(t.take(j) =~= tp + a);
            assert(t.skip(j) =~= b.push('\n'));
            assert(joined_lines(r) =~= t.take(j) + seq!['\n'] + t.skip(j));
            r
        } else {
            assert(j == t.len());
            let r = ls.push(Seq::<char>::empty());
            assert(r.drop_last() =~= ls);
            assert(!contains(Seq::<char>::empty(), m));
            assert(clean_lines(r)) by {
                assert forall|i: int| 0 <= i < r.len() implies clean_line(#[trigger] r[i]) by {
                    if i < ls.len() {
                        assert(r[i] == ls[i]);
                    }
                }
            }
            assert(marker_free(r, m)) by {
                assert forall|i: int| 0 <= i < r.len() implies !contains(#[trigger] r[i], m) by {
                    if i < ls.len() {
                        assert(r[i] == ls[i]);
                    }
                }
            }
            assert(joined_lines(r) =~= t.take(j) + seq!['\n'] + t.skip(j));
            r
        }
    }
}

/// The pattern that marks where the dependency block goes.
proof fn lemma_dependencies_pattern()
    ensures
        "dependencies {"@.len() == 14,
        no_newline("dependencies {"@),
        "dependencies {"@[13] == '{',
        !contains("dependencies {"@, GRADLE_MARKER@),
        "\n\ndependencies {\n"@ == seq!['\n', '\n'] + "dependencies {"@ + seq!['\n'],
        "}\n"@ == seq!['}', '\n'],
{
    reveal_strlit("dependencies {");
    reveal_strlit("\n\ndependencies {\n");
    reveal_strlit("}\n");
    reveal_strlit("mobile-sentinel:modules");
    lemma_find_from_props("dependencies {"@, GRADLE_MARKER@, 0);
    assert("\n\ndependencies {\n"@ =~= seq!['\n', '\n'] + "dependencies {"@ + seq!['\n']);
    assert("}\n"@ =~= seq!['}', '\n']);
}

/// Inserting the block after the line of `dependencies {` in a text in
/// stripped form gives a text whose rewrite is itself.
proof fn lemma_dependencies_fixpoint(
    u: Seq<char>,
    ls: Seq<Seq<char>>,
    modules: Seq<Seq<char>>,
    idx: int,
)
    requires
        u == joined_lines(ls),
        clean_lines(ls),
        marker_free(ls, GRADLE_MARKER@),
        find(u, "dependencies {"@) == Some(idx),
        0 <= idx,
        idx + 14 < u.len(),
        u[idx + 14] == '\n',
        marker_free(split_lines(dependencies_inner(modules)), GRADLE_MARKER@),
    ensures
        ({
            let o = u.take(idx + 15) + dependencies_block(modules) + u.skip(idx + 15);
            &&& strip_marker_block_spec(o, GRADLE_MARKER@) == u
            &&& dependencies_edit(o, modules) == o
        }),
{
    let m = GRADLE_MARKER@;
    lemma_dependencies_pattern();
    lemma_normal_form(ls, m);
    lemma_dependencies_block_scan(modules);
    lemma_prefix_free(u, idx + 15, m);
    lemma_strip_insert(u, idx + 15, dependencies_block(modules), m);
}

/// Rewriting `build.gradle.kts` twice gives what rewriting it once gives:
/// the dependency block of the first run is replaced, not accumulated.
/// (The file's lines must not end with a carriage return that line
/// splitting keeps, and the block's own lines must not hold the marker.)
pub proof fn law_dependencies_rewrite_idempotent(content: Seq<char>, modules: Seq<Seq<char>>)
    requires
        no_stray_cr(content),
        marker_free(split_lines(dependencies_inner(modules)), GRADLE_MARKER@),
    ensures
        dependencies_edit(dependencies_edit(content, modules), modules) == dependencies_edit(
            content,
            modules,
        ),
{
    let m = GRADLE_MARKER@;
    let pat = "dependencies {"@;
    reveal_strlit("mobile-sentinel:modules");
    assert(m.len() > 0);
    lemma_dependencies_pattern();
    lemma_split_clean(content);
    let lines = split_lines(content);
    lemma_kept_joined(lines, m, false);
    let k = kept_subseq(lines, m, false);
    let st = strip_marker_block_spec(content, m);
    assert(st == joined_lines(k));
    let blk = dependencies_block(modules);
    lemma_find_from_props(st, pat, 0);
    match find(st, pat) {
        Some(idx) => {
            let at = idx + 14;
            assert(matches_at(st, pat, idx));
            if at < st.len() && st[at] == '\n' {
                lemma_dependencies_fixpoint(st, k, modules, idx);
            } else {
                assert(st[at - 1] == st.subrange(idx, idx + 14)[13]);
                let ls = lemma_insert_newline(k, m, at);
                let u = st.take(at) + seq!['\n'] + st.skip(at);
                assert(u == joined_lines(ls));
                assert(matches_at(u, pat, idx)) by {
                    assert(u.subrange(idx, idx + 14) =~= st.subrange(idx, idx + 14));
                }
                assert forall|q: int| 0 <= q < idx implies !matches_at(u, pat, q) by {
                    if matches_at(u, pat, q) {
                        assert(u.subrange(q, q + 14) =~= st.subrange(q, q + 14));
                        assert(matches_at(st, pat, q));
                    }
                }
                lemma_find_from_first(u, pat, 0, idx);
                assert(u[at] == '\n');
                lemma_dependencies_fixpoint(u, ls, modules, idx);
                assert(dependencies_edit(content, modules) =~= u.take(at + 1) + blk + u.skip(
                    at + 1,
                ));
            }
        },
        None => {
            let t = trim_end(st);
            lemma_trim_end_props(st);
            let r = lemma_trimmed_joined(k, m);
            let l1 = Seq::<char>::empty();
            let l3 = seq!['}'];
            let ls = r + seq![l1, pat, l3];
            assert(!contains(l1, m)) by {
                lemma_find_from_props(l1, m, 0);
            }
            assert(!contains(l3, m)) by {
                lemma_find_from_props(l3, m, 0);
            }
            assert(clean_lines(ls)) by {
                assert forall|i: int| 0 <= i < ls.len() implies clean_line(#[trigger] ls[i]) by {
                    if i < r.len() {
                        assert(ls[i] == r[i]);
                    }
                }
            }
            assert(marker_free(ls, m)) by {
                assert forall|i: int| 0 <= i < ls.len() implies !contains(#[trigger] ls[i], m) by {
                    if i < r.len() {
                        assert(ls[i] == r[i]);
                    }
                }
            }
            let w = t + "\n\ndependencies {\n"@ + "}\n"@;
            assert(ls.drop_last() =~= r + seq![l1, pat]);
            assert((r + seq![l1, pat]).drop_last() =~= r + seq![l1]);
            assert((r + seq![l1]).drop_last() =~= r);
            assert(joined_lines(ls) =~= w) by {
                let r1 = r + seq![l1];
                let r2 = r + seq![l1, pat];
                assert(joined_lines(r1) == joined_lines(r) + l1.push('\n'));
                assert(joined_lines(r2) == joined_lines(r1) + pat.push('\n'));
                assert(joined_lines(ls) == joined_lines(r2) + l3.push('\n'));
                assert(joined_lines(r) == t.push('\n'));
                assert(l1.push('\n') =~= seq!['\n']);
                assert(l3.push('\n') =~= "}\n"@);
                assert(t.push('\n') + seq!['\n'] + pat.push('\n') =~= t + "\n\ndependencies {\n"@);
            }
            let idx: int = t.len() + 2int;
            assert(matches_at(w, pat, idx)) by {
                assert(w.subrange(idx, idx + 14) =~= pat);
            }
            assert forall|q: int| 0 <= q < idx implies !matches_at(w, pat, q) by {
                if matches_at(w, pat, q) {
                    if q + 14 <= t.len() {
                        assert(w.subrange(q, q + 14) =~= st.subrange(q, q + 14));
                        assert(matches_at(st, pat, q));
                    } else if q <= t.len() {
                        assert(w[t.len() as int] == '\n');
                        assert(w.subrange(q, q + 14)[t.len() - q] == w[t.len() as int]);
                    } else {
                        assert(w[t.len() + 1int] == '\n');
                        assert(w.subrange(q, q + 14)[t.len() + 1 - q] == w[t.len() + 1int]);
                    }
                }
            }
            lemma_find_from_first(w, pat, 0, idx);
            assert(w[idx + 14] == '\n');
            lemma_dependencies_fixpoint(w, ls, modules, idx);
            assert(dependencies_edit(content, modules) =~= w.take(idx + 15) + blk + w.skip(
                idx + 15,
            ));
        },
    }
}

} // verus!
