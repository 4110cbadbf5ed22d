//! Why re-running the manifest injection is safe: stripping the injected
//! blocks gives back the manifest they were spliced into, so a second run
//! (strip, then splice again) writes exactly what the first one wrote.
use vstd::prelude::*;

use crate::build::helper::{
    component_block_spec, insert_before_line_of, joined_lines, kept_lines, line_start,
    manifest_block_spec, marked_block, marker_line, splice_spec, strip_marker_block_spec,
    INJECTION_MARKER,
};
use crate::build::gradle_laws::{
    kept_subseq, lemma_kept_joined, lemma_normal_form, lemma_split_clean, no_stray_cr,
};
use crate::text::{
    contains, find, find_char_from, lemma_find_char_from_props, lemma_find_from_props,
    lemma_rfind_char_below_props, lines_from, matches_at, rfind_char_below, split_lines, strip_cr,
};

verus! {

// ---------------------------------------------------------------------------
// Lines of a concatenation
// ---------------------------------------------------------------------------

proof fn lemma_find_char_shift(a: Seq<char>, b: Seq<char>, c: char, k: int)
    requires
        0 <= k,
    ensures
        find_char_from(a + b, c, a.len() + k) == match find_char_from(b, c, k) {
            Some(j) => Some(j + a.len()),
            None => None,
        },
    decreases b.len() - k,
{
    if k < b.len() {
        assert((a + b)[a.len() + k] == b[k]);
        if b[k] != c {
            lemma_find_char_shift(a, b, c, k + 1);
        }
    }
}

proof fn lemma_find_char_prefix(a: Seq<char>, b: Seq<char>, c: char, i: int, m: int)
    requires
        0 <= i <= m < a.len(),
        a[m] == c,
    ensures
        find_char_from(a + b, c, i) == find_char_from(a, c, i),
    decreases m - i,
{
    assert((a + b)[i] == a[i]);
    if a[i] != c {
        lemma_find_char_prefix(a, b, c, i + 1, m);
    }
}

proof fn lemma_lines_shift(a: Seq<char>, b: Seq<char>, k: int)
    requires
        0 <= k,
    ensures
        lines_from(a + b, a.len() + k) == lines_from(b, k),
    decreases b.len() - k,
{
    let s = a + b;
    if k < b.len() {
        lemma_find_char_shift(a, b, '\n', k);
        lemma_find_char_from_props(b, '\n', k);
        match find_char_from(b, '\n', k) {
            Some(j) => {
                assert(s.subrange(a.len() + k, j + a.len()) =~= b.subrange(k, j));
                lemma_lines_shift(a, b, j + 1);
                assert(a.len() + k <= j + a.len());
            },
            None => {
                assert(s.subrange(a.len() + k, s.len() as int) =~= b.subrange(k, b.len() as int));
            },
        }
    }
}

proof fn lemma_lines_prefix(a: Seq<char>, b: Seq<char>, i: int)
    requires
        0 <= i <= a.len(),
        a.len() > 0 ==> a.last() == '\n',
    ensures
        lines_from(a + b, i) == lines_from(a, i) + lines_from(b, 0),
    decreases a.len() - i,
{
    let s = a + b;
    if i == a.len() {
        lemma_lines_shift(a, b, 0);
        assert(lines_from(a, i) =~= Seq::<Seq<char>>::empty());
        assert(lines_from(a, i) + lines_from(b, 0) =~= lines_from(b, 0));
    } else {
        lemma_find_char_prefix(a, b, '\n', i, a.len() - 1);
        lemma_find_char_from_props(a, '\n', i);
        let j = find_char_from(a, '\n', i)->0;
        assert(s.subrange(i, j) =~= a.subrange(i, j));
        lemma_lines_prefix(a, b, j + 1);
        assert(lines_from(s, i) =~= seq![strip_cr(a.subrange(i, j))] + lines_from(s, j + 1));
        assert(lines_from(a, i) =~= seq![strip_cr(a.subrange(i, j))] + lines_from(a, j + 1));
        assert(lines_from(s, i) =~= lines_from(a, i) + lines_from(b, 0));
    }
}

/// The lines of `a + b` are the lines of `a` and then those of `b`, when
/// `a` is empty or ends with a newline.
pub proof fn lemma_split_lines_concat(a: Seq<char>, b: Seq<char>)
    requires
        a.len() > 0 ==> a.last() == '\n',
    ensures
        split_lines(a + b) == split_lines(a) + split_lines(b),
{
    lemma_lines_prefix(a, b, 0);
}

// ---------------------------------------------------------------------------
// The marker scan over concatenated lines
// ---------------------------------------------------------------------------

/// Whether the marker scan is skipping after `lines`, having started with
/// `skipping`.
pub open spec fn scan_state(lines: Seq<Seq<char>>, marker: Seq<char>, skipping: bool) -> bool
    decreases lines.len(),
{
    if lines.len() == 0 {
        skipping
    } else if contains(lines[0], marker) {
        scan_state(lines.drop_first(), marker, !skipping)
    } else {
        scan_state(lines.drop_first(), marker, skipping)
    }
}

pub proof fn lemma_kept_concat(l1: Seq<Seq<char>>, l2: Seq<Seq<char>>, marker: Seq<char>, sk: bool)
    ensures
        kept_lines(l1 + l2, marker, sk) == kept_lines(l1, marker, sk) + kept_lines(
            l2,
            marker,
            scan_state(l1, marker, sk),
        ),
        scan_state(l1 + l2, marker, sk) == scan_state(l2, marker, scan_state(l1, marker, sk)),
    decreases l1.len(),
{
    if l1.len() == 0 {
        assert(l1 + l2 =~= l2);
        assert(kept_lines(l1, marker, sk) =~= Seq::<char>::empty());
        assert(kept_lines(l1, marker, sk) + kept_lines(l2, marker, sk) =~= kept_lines(l2, marker, sk));
    } else {
        assert((l1 + l2).drop_first() =~= l1.drop_first() + l2);
        assert((l1 + l2)[0] == l1[0]);
        let sk2 = if contains(l1[0], marker) {
            !sk
        } else {
            sk
        };
        lemma_kept_concat(l1.drop_first(), l2, marker, sk2);
        if !contains(l1[0], marker) && !sk {
            assert(kept_lines(l1 + l2, marker, sk) =~= l1[0].push('\n') + (kept_lines(
                l1.drop_first(),
                marker,
                sk2,
            ) + kept_lines(l2, marker, scan_state(l1.drop_first(), marker, sk2))));
        }
    }
}

/// No line of `lines` holds the marker.
pub open spec fn marker_free(lines: Seq<Seq<char>>, marker: Seq<char>) -> bool {
    forall|i: int| 0 <= i < lines.len() ==> !contains(#[trigger] lines[i], marker)
}

pub proof fn lemma_marker_free_state(lines: Seq<Seq<char>>, marker: Seq<char>, sk: bool)
    requires
        marker_free(lines, marker),
    ensures
        scan_state(lines, marker, sk) == sk,
        sk ==> kept_lines(lines, marker, sk) == Seq::<char>::empty(),
    decreases lines.len(),
{
    if lines.len() > 0 {
        assert(!contains(lines[0], marker));
        assert(marker_free(lines.drop_first(), marker)) by {
            assert forall|i: int| 0 <= i < lines.drop_first().len() implies !contains(
                #[trigger] lines.drop_first()[i],
                marker,
            ) by {
                assert(lines.drop_first()[i] == lines[i + 1]);
            }
        }
        lemma_marker_free_state(lines.drop_first(), marker, sk);
    }
}

// ---------------------------------------------------------------------------
// One marked block
// ---------------------------------------------------------------------------

/// No character of `s` is a newline.
pub open spec fn no_newline(s: Seq<char>) -> bool {
    forall|i: int| 0 <= i < s.len() ==> s[i] != '\n'
}

pub proof fn lemma_lines_of_one(y: Seq<char>)
    requires
        no_newline(y),
    ensures
        split_lines(y.push('\n')) == seq![strip_cr(y)],
{
    let s = y.push('\n');
    lemma_find_char_from_props(s, '\n', 0);
    assert(s[y.len() as int] == '\n');
    assert(find_char_from(s, '\n', 0) == Some(y.len() as int)) by {
        match find_char_from(s, '\n', 0) {
            Some(j) => {
                if j < y.len() {
                    assert(s[j] == y[j]);
                }
            },
            None => {},
        }
    }
    assert(s.subrange(0, y.len() as int) =~= y);
    assert(lines_from(s, y.len() + 1int) =~= Seq::<Seq<char>>::empty());
}

pub proof fn lemma_contains_at(s: Seq<char>, pat: Seq<char>, k: int)
    requires
        matches_at(s, pat, k),
    ensures
        contains(s, pat),
{
    lemma_find_from_props(s, pat, 0);
}

/// The lines of a marked block: the marker line, the lines of the block's
/// content, the marker line again; the scan skips all of them and ends
/// where it began.
proof fn lemma_block_scan(indent: Seq<char>, x: Seq<Seq<char>>)
    requires
        x.len() > 0,
        no_newline(indent),
        no_newline(INJECTION_MARKER@),
        INJECTION_MARKER@.len() > 0,
        INJECTION_MARKER@.last() != '\r',
        marker_free(split_lines(joined_lines(x)), INJECTION_MARKER@),
    ensures
        marked_block(indent, x).len() > 0,
        marked_block(indent, x).last() == '\n',
        scan_state(split_lines(marked_block(indent, x)), INJECTION_MARKER@, false) == false,
        kept_lines(split_lines(marked_block(indent, x)), INJECTION_MARKER@, false)
            == Seq::<char>::empty(),
{
    let m = INJECTION_MARKER@;
    let y = indent + m;
    let ml = marker_line(indent, m);
    let body = joined_lines(x);
    assert(ml == y.push('\n'));
    assert(no_newline(y)) by {
        assert forall|i: int| 0 <= i < y.len() implies y[i] != '\n' by {
            if i < indent.len() {
                assert(y[i] == indent[i]);
            } else {
                assert(y[i] == m[i - indent.len()]);
            }
        }
    }
    lemma_lines_of_one(y);
    assert(strip_cr(y) == y) by {
        assert(y.last() == m.last());
    }
    assert(contains(y, m)) by {
        assert(y.subrange(indent.len() as int, indent.len() + m.len() as int) =~= m);
        lemma_contains_at(y, m, indent.len() as int);
    }
    assert(body.len() > 0 && body.last() == '\n');
    let b = marked_block(indent, x);
    assert(b == ml + body + ml);
    lemma_split_lines_concat(ml, body + ml);
    lemma_split_lines_concat(body, ml);
    assert(ml + body + ml == ml + (body + ml));
    let lb = split_lines(body);
    assert(split_lines(b) == seq![y] + (lb + seq![y]));
    lemma_kept_concat(seq![y], lb + seq![y], m, false);
    lemma_kept_concat(lb, seq![y], m, true);
    lemma_marker_free_state(lb, m, true);
    reveal_with_fuel(scan_state, 2);
    reveal_with_fuel(kept_lines, 2);
    assert(seq![y][0] == y);
    assert(scan_state(seq![y], m, false) == true) by {
        assert(seq![y].drop_first() =~= Seq::<Seq<char>>::empty());
    }
    assert(kept_lines(seq![y], m, false) =~= Seq::<char>::empty()) by {
        assert(seq![y].drop_first() =~= Seq::<Seq<char>>::empty());
    }
    assert(scan_state(seq![y], m, true) == false) by {
        assert(seq![y].drop_first() =~= Seq::<Seq<char>>::empty());
    }
    assert(kept_lines(seq![y], m, true) =~= Seq::<char>::empty()) by {
        assert(seq![y].drop_first() =~= Seq::<Seq<char>>::empty());
    }
}

// ---------------------------------------------------------------------------
// Inserting a block
// ---------------------------------------------------------------------------

/// Inserting a marker-free block at a line start leaves the stripped text
/// unchanged.
pub proof fn lemma_strip_insert(t: Seq<char>, k: int, b: Seq<char>, m: Seq<char>)
    requires
        0 <= k <= t.len(),
        k > 0 ==> t[k - 1] == '\n',
        b.len() > 0 && b.last() == '\n',
        scan_state(split_lines(t.take(k)), m, false) == false,
        scan_state(split_lines(b), m, false) == false,
        kept_lines(split_lines(b), m, false) == Seq::<char>::empty(),
    ensures
        kept_lines(split_lines(t.take(k) + b + t.skip(k)), m, false) == kept_lines(
            split_lines(t),
            m,
            false,
        ),
{
    let a = t.take(k);
    let c = t.skip(k);
    assert(a.len() > 0 ==> a.last() == '\n');
    assert(t == a + c);
    lemma_split_lines_concat(a, c);
    lemma_split_lines_concat(a, b + c);
    lemma_split_lines_concat(b, c);
    assert(a + b + c == a + (b + c));
    lemma_kept_concat(split_lines(a), split_lines(b) + split_lines(c), m, false);
    lemma_kept_concat(split_lines(b), split_lines(c), m, false);
    lemma_kept_concat(split_lines(a), split_lines(c), m, false);
    assert(split_lines(a) + (split_lines(b) + split_lines(c)) == split_lines(a + (b + c)));
    assert(kept_lines(split_lines(b), m, false) + kept_lines(split_lines(c), m, false)
        =~= kept_lines(split_lines(c), m, false));
}

/// Where a block is inserted: the start of the line holding the first
/// occurrence of the pattern.
proof fn lemma_line_start_props(s: Seq<char>, pat: Seq<char>)
    requires
        find(s, pat) is Some,
    ensures
        ({
            let idx = find(s, pat)->0;
            let k = line_start(s, idx);
            &&& 0 <= k <= idx
            &&& matches_at(s, pat, idx)
            &&& (k > 0 ==> s[k - 1] == '\n')
            &&& forall|q: int| k <= q < idx ==> s[q] != '\n'
        }),
{
    lemma_find_from_props(s, pat, 0);
    let idx = find(s, pat)->0;
    lemma_rfind_char_below_props(s, '\n', idx);
}

/// Cutting marker-free text at a line start gives two marker-free parts,
/// and the scan is not skipping at the cut.
pub proof fn lemma_prefix_free(s: Seq<char>, k: int, m: Seq<char>)
    requires
        0 <= k <= s.len(),
        k > 0 ==> s[k - 1] == '\n',
        marker_free(split_lines(s), m),
    ensures
        marker_free(split_lines(s.take(k)), m),
        marker_free(split_lines(s.skip(k)), m),
        scan_state(split_lines(s.take(k)), m, false) == false,
{
    assert(s == s.take(k) + s.skip(k));
    lemma_split_lines_concat(s.take(k), s.skip(k));
    let la = split_lines(s.take(k));
    let lc = split_lines(s.skip(k));
    assert forall|i: int| 0 <= i < la.len() implies !contains(#[trigger] la[i], m) by {
        assert(split_lines(s)[i] == la[i]);
    }
    assert forall|i: int| 0 <= i < lc.len() implies !contains(#[trigger] lc[i], m) by {
        assert(split_lines(s)[la.len() + i] == lc[i]);
    }
    lemma_marker_free_state(la, m, false);
}

/// The scan state at the start of the line of the first `</application>`
/// of the manifest after the first insertion is not skipping.
#[verifier::rlimit(40)]
proof fn lemma_second_insertion_point(s: Seq<char>, manifest_lines: Seq<Seq<char>>, r1: Seq<char>)
    requires
        marker_free(split_lines(s), INJECTION_MARKER@),
        marker_free(split_lines(joined_lines(manifest_lines)), INJECTION_MARKER@),
        !contains(manifest_block_spec(manifest_lines), "</application>"@),
        r1 == (if manifest_block_spec(manifest_lines).len() > 0 {
            insert_before_line_of(s, "<application"@, manifest_block_spec(manifest_lines))
        } else {
            s
        }),
        find(r1, "</application>"@) is Some,
    ensures
        scan_state(
            split_lines(r1.take(line_start(r1, find(r1, "</application>"@)->0))),
            INJECTION_MARKER@,
            false,
        ) == false,
{
    let m = INJECTION_MARKER@;
    let mb = manifest_block_spec(manifest_lines);
    lemma_line_start_props(r1, "</application>"@);
    let idx2 = find(r1, "</application>"@)->0;
    let k2 = line_start(r1, idx2);
    if mb.len() > 0 && find(s, "<application"@) is Some {
        proof_marker_literal();
        reveal_strlit("    ");
        assert(no_newline("    "@));
        lemma_block_scan("    "@, manifest_lines);
        lemma_line_start_props(s, "<application"@);
        let k1 = line_start(s, find(s, "<application"@)->0);
        lemma_prefix_free(s, k1, m);
        let a = s.take(k1);
        let c = s.skip(k1);
        assert(r1 == a + mb + c);
        if k2 <= a.len() {
            assert(r1.take(k2) =~= s.take(k2));
            if k2 > 0 {
                assert(r1[k2 - 1] == s[k2 - 1]);
            }
            lemma_prefix_free(s, k2, m);
        } else if k2 >= a.len() + mb.len() {
            let j = k2 - a.len() - mb.len();
            assert(r1.take(k2) =~= a + mb + c.take(j));
            if j > 0 {
                assert(r1[k2 - 1] == c[j - 1]);
            }
            lemma_prefix_free(c, j, m);
            lemma_split_lines_concat(a, mb + c.take(j));
            lemma_split_lines_concat(mb, c.take(j));
            assert(a + mb + c.take(j) == a + (mb + c.take(j)));
            lemma_kept_concat(split_lines(a), split_lines(mb) + split_lines(c.take(j)), m, false);
            lemma_kept_concat(split_lines(mb), split_lines(c.take(j)), m, false);
        } else {
            // The line of the first `</application>` cannot start inside the
            // manifest-scope block: the occurrence would lie in the block.
            reveal_strlit("</application>");
            let p = a.len() + mb.len() - 1;
            assert(r1[p] == mb.last());
            let pat = "</application>"@;
            assert(r1.subrange(idx2, idx2 + pat.len()) == pat);
            if idx2 >= p {
                if idx2 > p {
                    assert(r1[p] != '\n');
                } else {
                    assert(r1[idx2] == r1.subrange(idx2, idx2 + pat.len())[0]);
                }
            }
            if idx2 + pat.len() > p {
                assert(r1[p] == r1.subrange(idx2, idx2 + pat.len())[p - idx2]);
            }
            assert(matches_at(mb, pat, idx2 - a.len())) by {
                assert(mb.subrange(idx2 - a.len(), idx2 - a.len() + pat.len())
                    =~= r1.subrange(idx2, idx2 + pat.len()));
            }
            lemma_contains_at(mb, pat, idx2 - a.len());
        }
    } else {
        assert(r1 == s);
        lemma_prefix_free(s, k2, m);
    }
}

/// Stripping the injection from a manifest into which both injection
/// blocks were spliced gives back what stripping the manifest gave before
/// the splice, provided the manifest, the manifest lines and the components
/// hold no marker line, and the manifest-scope block does not itself hold
/// `</application>`.
pub proof fn law_strip_undoes_splice(
    s: Seq<char>,
    manifest_lines: Seq<Seq<char>>,
    components: Seq<Seq<char>>,
)
    requires
        marker_free(split_lines(s), INJECTION_MARKER@),
        marker_free(split_lines(joined_lines(manifest_lines)), INJECTION_MARKER@),
        marker_free(split_lines(joined_lines(components)), INJECTION_MARKER@),
        !contains(manifest_block_spec(manifest_lines), "</application>"@),
    ensures
        strip_marker_block_spec(splice_spec(s, manifest_lines, components), INJECTION_MARKER@)
            == strip_marker_block_spec(s, INJECTION_MARKER@),
{
    let m = INJECTION_MARKER@;
    proof_marker_literal();
    let mb = manifest_block_spec(manifest_lines);
    let cb = component_block_spec(components);
    let r1 = if mb.len() > 0 {
        insert_before_line_of(s, "<application"@, mb)
    } else {
        s
    };
    assert(kept_lines(split_lines(r1), m, false) == kept_lines(split_lines(s), m, false)) by {
        if mb.len() > 0 && find(s, "<application"@) is Some {
            reveal_strlit("    ");
            assert(no_newline("    "@));
            lemma_block_scan("    "@, manifest_lines);
            lemma_line_start_props(s, "<application"@);
            let k1 = line_start(s, find(s, "<application"@)->0);
            lemma_prefix_free(s, k1, m);
            lemma_strip_insert(s, k1, mb, m);
        }
    }
    if components.len() > 0 && find(r1, "</application>"@) is Some {
        reveal_strlit("        ");
        assert(no_newline("        "@));
        lemma_block_scan("        "@, components);
        lemma_line_start_props(r1, "</application>"@);
        lemma_second_insertion_point(s, manifest_lines, r1);
        let k2 = line_start(r1, find(r1, "</application>"@)->0);
        lemma_strip_insert(r1, k2, cb, m);
    }
}

/// The marker is a single non-empty line that does not end with a
/// carriage return.
proof fn proof_marker_literal()
    ensures
        no_newline(INJECTION_MARKER@),
        INJECTION_MARKER@.len() > 0,
        INJECTION_MARKER@.last() != '\r',
{
    reveal_strlit("<!-- mobile-sentinel:capabilities -->");
}

/// Re-running the injection on its own output writes the same manifest:
/// for a manifest in stripped form, stripping the spliced manifest and
/// splicing again gives the spliced manifest back.
pub proof fn law_injection_idempotent(
    s: Seq<char>,
    manifest_lines: Seq<Seq<char>>,
    components: Seq<Seq<char>>,
)
    requires
        strip_marker_block_spec(s, INJECTION_MARKER@) == s,
        marker_free(split_lines(s), INJECTION_MARKER@),
        marker_free(split_lines(joined_lines(manifest_lines)), INJECTION_MARKER@),
        marker_free(split_lines(joined_lines(components)), INJECTION_MARKER@),
        !contains(manifest_block_spec(manifest_lines), "</application>"@),
    ensures
        splice_spec(
            strip_marker_block_spec(splice_spec(s, manifest_lines, components), INJECTION_MARKER@),
            manifest_lines,
            components,
        ) == splice_spec(s, manifest_lines, components),
{
    law_strip_undoes_splice(s, manifest_lines, components);
}

// ---------------------------------------------------------------------------
// Nothing of a stripped block is left
// ---------------------------------------------------------------------------

/// A pattern without a newline found in `a`, a newline, then `b` lies in
/// `a` or in `b`.
proof fn lemma_contains_across_newline(a: Seq<char>, b: Seq<char>, m: Seq<char>)
    requires
        no_newline(m),
        contains(a.push('\n') + b, m),
    ensures
        contains(a, m) || contains(b, m),
{
    let s = a.push('\n') + b;
    lemma_find_from_props(s, m, 0);
    let k = find(s, m)->0;
    if k + m.len() <= a.len() {
        assert(a.subrange(k, k + m.len()) =~= s.subrange(k, k + m.len()));
        lemma_contains_at(a, m, k);
    } else if k > a.len() {
        let k2 = k - a.len() - 1;
        assert(b.subrange(k2, k2 + m.len()) =~= s.subrange(k, k + m.len()));
        lemma_contains_at(b, m, k2);
    } else {
        assert(s[a.len() as int] == '\n');
        assert(s.subrange(k, k + m.len())[a.len() - k] == s[a.len() as int]);
    }
}

proof fn lemma_kept_lines_free(lines: Seq<Seq<char>>, m: Seq<char>, sk: bool)
    requires
        m.len() > 0,
        no_newline(m),
    ensures
        !contains(kept_lines(lines, m, sk), m),
    decreases lines.len(),
{
    if lines.len() == 0 {
        lemma_find_from_props(Seq::<char>::empty(), m, 0);
    } else {
        lemma_kept_lines_free(lines.drop_first(), m, !sk);
        lemma_kept_lines_free(lines.drop_first(), m, sk);
        if !contains(lines[0], m) && !sk {
            let rest = kept_lines(lines.drop_first(), m, sk);
            if contains(lines[0].push('\n') + rest, m) {
                lemma_contains_across_newline(lines[0], rest, m);
            }
        }
    }
}

/// Stripping leaves a clean baseline: no trace of the marker is left in
/// what `strip_marker_block` returns, whether the marked block was closed,
/// left open or absent. (The marker is not empty and holds no newline.)
pub proof fn law_strip_leaves_no_marker(content: Seq<char>, marker: Seq<char>)
    requires
        marker.len() > 0,
        no_newline(marker),
    ensures
        !contains(strip_marker_block_spec(content, marker), marker),
{
    lemma_kept_lines_free(split_lines(content), marker, false);
}

/// Re-running `build_sentinel` restores the stripped manifest: for any
/// manifest `s`, splicing an injection into the stripped `s` and stripping
/// again gives the stripped `s` back. (The manifest's lines do not end with
/// a carriage return that line splitting keeps, the injection's lines hold
/// no marker, and the manifest-scope block holds no `</application>`.)
pub proof fn law_strip_restores_stripped(
    s: Seq<char>,
    manifest_lines: Seq<Seq<char>>,
    components: Seq<Seq<char>>,
)
    requires
        no_stray_cr(s),
        marker_free(split_lines(joined_lines(manifest_lines)), INJECTION_MARKER@),
        marker_free(split_lines(joined_lines(components)), INJECTION_MARKER@),
        !contains(manifest_block_spec(manifest_lines), "</application>"@),
    ensures
        strip_marker_block_spec(
            splice_spec(strip_marker_block_spec(s, INJECTION_MARKER@), manifest_lines, components),
            INJECTION_MARKER@,
        ) == strip_marker_block_spec(s, INJECTION_MARKER@),
{
    let m = INJECTION_MARKER@;
    lemma_split_clean(s);
    lemma_kept_joined(split_lines(s), m, false);
    let k = kept_subseq(split_lines(s), m, false);
    lemma_normal_form(k, m);
    law_strip_undoes_splice(joined_lines(k), manifest_lines, components);
}
} // verus!
