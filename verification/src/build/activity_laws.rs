//! Why the edits of the main activity are safe to repeat: once the
//! activity carries `android:screenOrientation="<value>"`, setting the same
//! value again finds nothing to write; once the runtime flags and the
//! predictive-back opt-in are in place, adding them again finds nothing to
//! write.
use vstd::prelude::*;

use crate::build::helper::{
    activity_flags_edit_spec, insert_attr_spec, name_needle, orientation_attr, orientation_edit,
    remove_attr_from, remove_attr_spec, replace_all, replace_from, skip_ascii_ws,
    ACTIVITY_FLAG_ATTRS, APPLICATION_BACK_CALLBACK,
};
use crate::build::manifest_laws::lemma_contains_at;
use crate::text::{
    contains, find, find_char_from, find_from, is_ascii_ws, lemma_find_char_from_props,
    lemma_find_from_first, lemma_find_from_props, matches_at, starts_with,
};

verus! {

/// No character of `s` is `c`.
pub open spec fn free_of(s: Seq<char>, c: char) -> bool {
    forall|i: int| 0 <= i < s.len() ==> s[i] != c
}

/// The prefix that `remove_attr` looks for when it clears the orientation.
spec fn orientation_prefix() -> Seq<char> {
    "android:screenOrientation"@ + "=\""@
}

/// The characters of the orientation prefix that the proofs look at.
proof fn lemma_orientation_prefix()
    ensures
        orientation_prefix().len() == 27,
        orientation_prefix()[25] == '=',
        orientation_prefix()[26] == '"',
        forall|t: int| 0 <= t < 25 ==> orientation_prefix()[t] != '=' && orientation_prefix()[t]
            != '"',
{
    reveal_strlit("android:screenOrientation");
    reveal_strlit("=\"");
}

/// The characters of the activity's name attribute, by position.
proof fn lemma_needle_chars(fqcn: Seq<char>)
    requires
        free_of(fqcn, '"'),
        free_of(fqcn, '='),
        free_of(fqcn, '>'),
    ensures
        name_needle(fqcn).len() == fqcn.len() + 15,
        name_needle(fqcn)[12] == '=',
        name_needle(fqcn)[13] == '"',
        name_needle(fqcn)[fqcn.len() + 14int] == '"',
        free_of(name_needle(fqcn), '>'),
        forall|t: int|
            0 <= t < name_needle(fqcn).len() && t != 12 ==> #[trigger] name_needle(fqcn)[t]
                != '=',
        forall|t: int|
            0 <= t < name_needle(fqcn).len() && t != 13 && t != fqcn.len() + 14
                ==> #[trigger] name_needle(fqcn)[t] != '"',
{
    reveal_strlit("android:name=\"");
    reveal_strlit("\"");
    let n = name_needle(fqcn);
    assert forall|t: int| 0 <= t < n.len() implies #[trigger] n[t] != '>' by {
        if 14 <= t < fqcn.len() + 14 {
            assert(n[t] == fqcn[t - 14]);
        }
    }
    assert forall|t: int| 0 <= t < n.len() && t != 12 implies #[trigger] n[t] != '=' by {
        if 14 <= t < fqcn.len() + 14 {
            assert(n[t] == fqcn[t - 14]);
        }
    }
    assert forall|t: int| 0 <= t < n.len() && t != 13 && t != fqcn.len() + 14 implies #[trigger] n[t]
        != '"' by {
        if 14 <= t < fqcn.len() + 14 {
            assert(n[t] == fqcn[t - 14]);
        }
    }
}

/// The orientation prefix does not start anywhere inside the name
/// attribute at the front of `tag`.
proof fn lemma_no_prefix_in_needle(tag: Seq<char>, fqcn: Seq<char>, j: int)
    requires
        free_of(fqcn, '"'),
        free_of(fqcn, '='),
        free_of(fqcn, '>'),
        tag.len() >= name_needle(fqcn).len(),
        tag.take(name_needle(fqcn).len() as int) == name_needle(fqcn),
        0 <= j < name_needle(fqcn).len(),
    ensures
        !starts_with(tag.skip(j), orientation_prefix()),
{
    let n = name_needle(fqcn);
    let pre = orientation_prefix();
    lemma_needle_chars(fqcn);
    lemma_orientation_prefix();
    if starts_with(tag.skip(j), pre) {
        assert(tag.skip(j).take(27)[25] == pre[25]);
        assert(tag[j + 25] == '=');
        if j + 25 < n.len() {
            assert(tag.take(n.len() as int)[j + 25] == n[j + 25]);
        } else {
            let t = n.len() - 1 - j;
            assert(0 <= t < 25);
            assert(tag.skip(j).take(27)[t] == pre[t]);
            assert(tag.take(n.len() as int)[n.len() - 1] == n[n.len() - 1]);
        }
    }
}

/// Where no match of `prefix` starts in `[i, k)`, the scan keeps that
/// stretch of `tag` as it is.
proof fn lemma_keep_stretch(tag: Seq<char>, prefix: Seq<char>, i: int, k: int)
    requires
        0 <= i <= k < tag.len(),
        forall|j: int| i <= j < k ==> !#[trigger] starts_with(tag.skip(j), prefix),
    ensures
        remove_attr_from(tag, prefix, i) == tag.subrange(i, k) + remove_attr_from(tag, prefix, k),
    decreases k - i,
{
    if i < k {
        assert(!starts_with(tag.skip(i), prefix));
        lemma_keep_stretch(tag, prefix, i + 1, k);
        assert(seq![tag[i]] + tag.subrange(i + 1, k) =~= tag.subrange(i, k));
    } else {
        assert(tag.subrange(i, k) =~= Seq::<char>::empty());
    }
}

/// Skipping whitespace stops at the latest at a character that is not.
proof fn lemma_skip_ws_below(s: Seq<char>, i: int, k: int)
    requires
        0 <= i <= k < s.len(),
        !is_ascii_ws(s[k]),
    ensures
        i <= skip_ascii_ws(s, i) <= k,
    decreases k - i,
{
    if i < k && is_ascii_ws(s[i]) {
        lemma_skip_ws_below(s, i + 1, k);
    }
}

/// The scan from `i` keeps the closing `'>'` of the tag as its last
/// character, and no other `'>'`.
proof fn lemma_keeps_close(tag: Seq<char>, i: int)
    requires
        0 <= i < tag.len(),
        tag.last() == '>',
        forall|m: int| i <= m < tag.len() - 1 ==> tag[m] != '>',
    ensures
        ({
            let r = remove_attr_from(tag, orientation_prefix(), i);
            &&& r.len() >= 1
            &&& r.last() == '>'
            &&& forall|m: int| 0 <= m < r.len() - 1 ==> r[m] != '>'
        }),
    decreases tag.len() - i,
{
    let pre = orientation_prefix();
    lemma_orientation_prefix();
    let last = tag.len() - 1;
    if i == last {
        assert(!starts_with(tag.skip(i), pre));
        assert(remove_attr_from(tag, pre, i) =~= seq![tag[i]] + remove_attr_from(tag, pre, i + 1));
    } else {
        lemma_find_char_from_props(tag, '"', i + pre.len());
        match find_char_from(tag, '"', i + pre.len()) {
            Some(q) => {
                if starts_with(tag.skip(i), pre) && i <= q < tag.len() && skip_ascii_ws(tag, q + 1)
                    <= tag.len() && i < skip_ascii_ws(tag, q + 1) {
                    assert(q != last);
                    lemma_skip_ws_below(tag, q + 1, last);
                    lemma_keeps_close(tag, skip_ascii_ws(tag, q + 1));
                } else {
                    lemma_keeps_close(tag, i + 1);
                    let r1 = remove_attr_from(tag, pre, i + 1);
                    assert(remove_attr_from(tag, pre, i) == seq![tag[i]] + r1);
                }
            },
            None => {
                lemma_keeps_close(tag, i + 1);
                let r1 = remove_attr_from(tag, pre, i + 1);
                assert(remove_attr_from(tag, pre, i) == seq![tag[i]] + r1);
            },
        }
    }
}

/// The orientation attribute holds no `'>'` when its value holds none.
proof fn lemma_attr_free_of_close(orientation: Seq<char>)
    requires
        free_of(orientation, '>'),
    ensures
        free_of(orientation_attr(orientation), '>'),
{
    reveal_strlit("android:screenOrientation=\"");
    reveal_strlit("\"");
    let d = orientation_attr(orientation);
    assert forall|t: int| 0 <= t < d.len() implies d[t] != '>' by {
        if 27 <= t < orientation.len() + 27 {
            assert(d[t] == orientation[t - 27]);
        }
    }
}

/// Setting the screen orientation is idempotent for repeated builds with
/// the same value: once an edit has been written, editing the result with
/// the same activity and value finds the attribute in place and writes
/// nothing. (The activity's name holds no `"`, `=` or `>`, and the value no
/// `>`.)
pub proof fn law_orientation_edit_idempotent(
    content: Seq<char>,
    fqcn: Seq<char>,
    orientation: Seq<char>,
)
    requires
        free_of(fqcn, '"'),
        free_of(fqcn, '='),
        free_of(fqcn, '>'),
        free_of(orientation, '>'),
    ensures
        orientation_edit(content, fqcn, orientation) matches Some(c1) ==> orientation_edit(
            c1,
            fqcn,
            orientation,
        ) is None,
{
    if let Some(c1) = orientation_edit(content, fqcn, orientation) {
        let n = name_needle(fqcn);
        let pre = orientation_prefix();
        let d = orientation_attr(orientation);
        lemma_needle_chars(fqcn);
        lemma_orientation_prefix();
        lemma_attr_free_of_close(orientation);
        lemma_find_from_props(content, n, 0);
        let p = find(content, n)->0;
        lemma_find_char_from_props(content, '>', p);
        let cl = find_char_from(content, '>', p)->0;
        assert(cl >= p + n.len()) by {
            if cl < p + n.len() {
                assert(content.subrange(p, p + n.len())[cl - p] == n[cl - p]);
            }
        }
        let tag = content.subrange(p, cl + 1);
        assert(tag.take(n.len() as int) =~= n) by {
            assert(content.subrange(p, p + n.len()) == n);
        }
        assert(pre == "android:screenOrientation"@ + "=\""@);
        assert forall|j: int| 0 <= j < n.len() implies !#[trigger] starts_with(tag.skip(j), pre) by {
            lemma_no_prefix_in_needle(tag, fqcn, j);
        }
        lemma_keep_stretch(tag, pre, 0, n.len() as int);
        lemma_keeps_close(tag, n.len() as int);
        let r = remove_attr_from(tag, pre, n.len() as int);
        let cleaned = remove_attr_spec(tag, "android:screenOrientation"@);
        assert(cleaned =~= n + r) by {
            assert(tag.subrange(0, n.len() as int) =~= n);
        }
        let len = cleaned.len();
        assert(cleaned.last() == '>');
        assert(forall|m: int| 0 <= m < len - 1 ==> cleaned[m] != '>') by {
            assert forall|m: int| 0 <= m < len - 1 implies cleaned[m] != '>' by {
                if m >= n.len() {
                    assert(cleaned[m] == r[m - n.len()]);
                }
            }
        }
        let b = cleaned.take(len - 1);
        let sp: Seq<char> = if b.len() > 0 && crate::text::is_ws(b.last()) {
            seq![]
        } else {
            seq![' ']
        };
        let updated = insert_attr_spec(cleaned, d);
        assert(updated =~= b + sp + d + seq!['>']);
        assert(c1 == content.take(p) + updated + content.skip(cl + 1));
        // The name attribute is still first found at `p`.
        assert forall|t: int| 0 <= t < p + n.len() implies c1[t] == content[t] by {
            if t >= p {
                assert(c1[t] == updated[t - p]);
                assert(updated[t - p] == cleaned[t - p]);
                assert(content[t] == content.subrange(p, p + n.len())[t - p]);
            }
        }
        assert(matches_at(c1, n, p)) by {
            assert forall|k: int| 0 <= k < n.len() implies c1.subrange(p, p + n.len())[k] == n[k] by {
                assert(content.subrange(p, p + n.len())[k] == n[k]);
            }
            assert(c1.subrange(p, p + n.len()) =~= n);
        }
        assert forall|m: int| 0 <= m < p implies !matches_at(c1, n, m) by {
            if matches_at(c1, n, m) {
                assert forall|k: int| 0 <= k < n.len() implies #[trigger] c1.subrange(m, m + n.len())[k]
                    == content.subrange(m, m + n.len())[k] by {
                    assert(c1[m + k] == content[m + k]);
                }
                assert(c1.subrange(m, m + n.len()) =~= content.subrange(m, m + n.len()));
                assert(matches_at(content, n, m));
            }
        }
        lemma_find_from_first(c1, n, 0, p);
        // The first '>' after it closes the edited tag.
        let e = p + updated.len() - 1;
        assert(c1[e] == '>');
        assert forall|m: int| p <= m < e implies c1[m] != '>' by {
            assert(c1[m] == updated[m - p]);
            let k = m - p;
            if k < b.len() {
                assert(updated[k] == cleaned[k]);
            } else if k < b.len() + sp.len() {
            } else {
                assert(updated[k] == d[k - b.len() - sp.len()]);
            }
        }
        lemma_find_char_from_props(c1, '>', p);
        assert(find_char_from(c1, '>', p) == Some(e));
        // That tag already carries the value.
        assert(c1.subrange(p, e + 1) =~= updated);
        let at: int = b.len() + sp.len() + 0int;
        assert(matches_at(updated, d, at)) by {
            assert(updated.subrange(at, at + d.len()) =~= d);
        }
        lemma_find_from_props(updated, d, 0);
    }
}

// ---------------------------------------------------------------------------
// Replacing a pattern by a text that starts with it
// ---------------------------------------------------------------------------

/// `pat`, placed at offset `o` against `y`, agrees with `y` wherever the two
/// overlap.
pub open spec fn agrees_at(y: Seq<char>, pat: Seq<char>, o: int) -> bool {
    forall|r: int| 0 <= r && o <= r < o + pat.len() && r < y.len() ==> y[r] == pat[r - o]
}

/// No occurrence of `pat` can end strictly inside an occurrence of `y`:
/// text inserted after an occurrence of `pat` never splits `y`.
pub open spec fn no_straddle(y: Seq<char>, pat: Seq<char>) -> bool {
    forall|o: int| -pat.len() < o && o + pat.len() < y.len() ==> !#[trigger] agrees_at(y, pat, o)
}

/// A text found in `b` is found in `a + b`.
proof fn lemma_contains_shift(a: Seq<char>, b: Seq<char>, y: Seq<char>)
    requires
        contains(b, y),
    ensures
        contains(a + b, y),
{
    lemma_find_from_props(b, y, 0);
    let k = find(b, y)->0;
    assert((a + b).subrange(a.len() + k, a.len() + k + y.len()) =~= b.subrange(k, k + y.len()));
    lemma_contains_at(a + b, y, a.len() + k);
}

/// A text that occurs at a position of `s` at or after `i` still occurs in
/// what the replacement from `i` gives, when `rep` starts with `pat` and
/// `pat` cannot end inside the text.
proof fn lemma_replace_keeps(s: Seq<char>, pat: Seq<char>, rep: Seq<char>, y: Seq<char>, i: int, k: int)
    requires
        pat.len() > 0,
        starts_with(rep, pat),
        no_straddle(y, pat),
        0 <= i <= k,
        matches_at(s, y, k),
    ensures
        contains(replace_from(s, pat, rep, i), y),
    decreases s.len() - i,
{
    lemma_find_from_props(s, pat, i);
    let r = replace_from(s, pat, rep, i);
    match find_from(s, pat, i) {
        Some(j) => {
            let t = j + pat.len();
            let rest = replace_from(s, pat, rep, t);
            let front = s.subrange(i, j) + rep;
            assert(r == front + rest);
            if k + y.len() <= t {
                assert forall|q: int| 0 <= q < y.len() implies #[trigger] r.subrange(
                    k - i,
                    k - i + y.len(),
                )[q] == y[q] by {
                    assert(r.subrange(k - i, k - i + y.len())[q] == r[k - i + q]);
                    assert(y[q] == s.subrange(k, k + y.len())[q]);
                    if k + q < j {
                        assert(r[k - i + q] == s.subrange(i, j)[k + q - i]);
                    } else {
                        assert(r[k - i + q] == rep[k + q - j]);
                        assert(rep[k + q - j] == rep.take(pat.len() as int)[k + q - j]);
                        assert(s[k + q] == s.subrange(j, t)[k + q - j]);
                    }
                }
                assert(r.subrange(k - i, k - i + y.len()) =~= y);
                lemma_contains_at(r, y, k - i);
            } else if k >= t {
                lemma_replace_keeps(s, pat, rep, y, t, k);
                lemma_contains_shift(front, rest, y);
            } else {
                let o = j - k;
                assert(agrees_at(y, pat, o)) by {
                    assert forall|q: int|
                        0 <= q && o <= q < o + pat.len() && q < y.len() implies y[q] == pat[q - o] by {
                        assert(y[q] == s.subrange(k, k + y.len())[q]);
                        assert(pat[q - o] == s.subrange(j, t)[q - o]);
                    }
                }
                assert(!agrees_at(y, pat, o));
            }
        },
        None => {
            assert(r == s.skip(i));
            assert(r.subrange(k - i, k - i + y.len()) =~= s.subrange(k, k + y.len()));
            lemma_contains_at(r, y, k - i);
        },
    }
}

/// Replacing keeps every text that `pat` cannot end inside.
proof fn lemma_replace_all_keeps(s: Seq<char>, pat: Seq<char>, rep: Seq<char>, y: Seq<char>)
    requires
        pat.len() > 0,
        starts_with(rep, pat),
        no_straddle(y, pat),
        contains(s, y),
    ensures
        contains(replace_all(s, pat, rep), y),
{
    lemma_find_from_props(s, y, 0);
    lemma_replace_keeps(s, pat, rep, y, 0, find(s, y)->0);
}

/// Where `pat` occurs, the replacement holds `rep`, and so every part of it.
proof fn lemma_replace_all_holds(s: Seq<char>, pat: Seq<char>, rep: Seq<char>, y: Seq<char>, a: int)
    requires
        pat.len() > 0,
        contains(s, pat),
        0 <= a,
        a + y.len() <= rep.len(),
        rep.subrange(a, a + y.len()) == y,
    ensures
        contains(replace_all(s, pat, rep), y),
{
    lemma_find_from_props(s, pat, 0);
    let j = find(s, pat)->0;
    let r = replace_all(s, pat, rep);
    let rest = replace_from(s, pat, rep, j + pat.len());
    assert(r == s.subrange(0, j) + rep + rest);
    assert(r.subrange(j + a, j + a + y.len()) =~= rep.subrange(a, a + y.len()));
    lemma_contains_at(r, y, j + a);
}

/// A text free of the last character of `pat` cannot be split by it.
proof fn lemma_no_straddle_by_last(y: Seq<char>, pat: Seq<char>)
    requires
        pat.len() > 0,
        free_of(y, pat.last()),
    ensures
        no_straddle(y, pat),
{
    assert forall|o: int| -pat.len() < o && o + pat.len() < y.len() implies !#[trigger] agrees_at(
        y,
        pat,
        o,
    ) by {
        let r = o + pat.len() - 1;
        if agrees_at(y, pat, o) {
            assert(y[r] == pat[r - o]);
        }
    }
}

/// `"<application"` cannot end inside `showWhenLocked` or `launchMode`:
/// neither holds a `'<'`, and neither begins with a proper suffix of it.
proof fn lemma_no_straddle_application(y: Seq<char>)
    requires
        y == "showWhenLocked"@ || y == "launchMode"@,
    ensures
        no_straddle(y, "<application"@),
{
    let pat = "<application"@;
    reveal_strlit("<application");
    reveal_strlit("showWhenLocked");
    reveal_strlit("launchMode");
    assert forall|o: int| -pat.len() < o && o + pat.len() < y.len() implies !#[trigger] agrees_at(
        y,
        pat,
        o,
    ) by {
        if agrees_at(y, pat, o) {
            if o >= 0 {
                assert(y[o] == pat[0]);
            } else {
                assert(y[0] == pat[-o]);
                if o == -4 {
                    assert(y[1] == pat[5]);
                }
            }
        }
    }
}

/// The literal texts the flag edit writes and looks for.
proof fn lemma_flag_literals(fqcn: Seq<char>)
    ensures
        name_needle(fqcn).len() > 0,
        "<application"@.len() == 12,
        starts_with(APPLICATION_BACK_CALLBACK@, "<application"@),
        APPLICATION_BACK_CALLBACK@.len() == 55,
        APPLICATION_BACK_CALLBACK@.subrange(21, 48) == "enableOnBackInvokedCallback"@,
        ACTIVITY_FLAG_ATTRS@.len() == 130,
        ACTIVITY_FLAG_ATTRS@.subrange(21, 31) == "launchMode"@,
        ACTIVITY_FLAG_ATTRS@.subrange(69, 83) == "showWhenLocked"@,
        no_straddle("enableOnBackInvokedCallback"@, name_needle(fqcn)),
        no_straddle("<application"@, name_needle(fqcn)),
        no_straddle("showWhenLocked"@, "<application"@),
        no_straddle("launchMode"@, "<application"@),
{
    reveal_strlit("android:name=\"");
    reveal_strlit("\"");
    reveal_strlit("<application");
    reveal_strlit("<application android:enableOnBackInvokedCallback=\"true\"");
    reveal_strlit("enableOnBackInvokedCallback");
    reveal_strlit("launchMode");
    reveal_strlit("showWhenLocked");
    reveal_strlit(
        "\n            android:launchMode=\"singleInstance\"\n            android:showWhenLocked=\"true\"\n            android:turnScreenOn=\"true\"",
    );
    let n = name_needle(fqcn);
    assert(n.last() == '"');
    assert(APPLICATION_BACK_CALLBACK@.take(12) =~= "<application"@);
    assert(APPLICATION_BACK_CALLBACK@.subrange(21, 48) =~= "enableOnBackInvokedCallback"@);
    assert(ACTIVITY_FLAG_ATTRS@.subrange(21, 31) =~= "launchMode"@);
    assert(ACTIVITY_FLAG_ATTRS@.subrange(69, 83) =~= "showWhenLocked"@);
    lemma_no_straddle_by_last("enableOnBackInvokedCallback"@, n);
    lemma_no_straddle_by_last("<application"@, n);
    lemma_no_straddle_application("showWhenLocked"@);
    lemma_no_straddle_application("launchMode"@);
}

/// Adding the runtime flags settles the manifest: once an edit has been
/// written, adding the flags again to the result finds the manifest fully
/// configured and writes nothing. (The manifest names the activity unless
/// it already carries the flags, and has an `<application` tag unless it
/// already opts into predictive back: without those anchors the edit has
/// nothing to attach to.)
pub proof fn law_activity_flags_settle(content: Seq<char>, fqcn: Seq<char>)
    requires
        (contains(content, "showWhenLocked"@) && contains(content, "launchMode"@)) || contains(
            content,
            name_needle(fqcn),
        ),
        contains(content, "enableOnBackInvokedCallback"@) || contains(content, "<application"@),
    ensures
        activity_flags_edit_spec(content, fqcn) matches Some(c1) ==> activity_flags_edit_spec(
            c1,
            fqcn,
        ) is None,
{
    let n = name_needle(fqcn);
    let app = "<application"@;
    let swl = "showWhenLocked"@;
    let lm = "launchMode"@;
    let yb = "enableOnBackInvokedCallback"@;
    lemma_flag_literals(fqcn);
    let attrs = contains(content, swl) && contains(content, lm);
    let back = contains(content, yb);
    if !(attrs && back) {
        let rep_name = n + ACTIVITY_FLAG_ATTRS@;
        assert(starts_with(rep_name, n)) by {
            assert(rep_name.take(n.len() as int) =~= n);
        }
        let first = if attrs {
            content
        } else {
            replace_all(content, n, rep_name)
        };
        let nl: int = n.len() as int;
        if !attrs {
            assert(rep_name.subrange(nl + 21, nl + 31) =~= ACTIVITY_FLAG_ATTRS@.subrange(
                21,
                31,
            ));
            assert(rep_name.subrange(nl + 69, nl + 83) =~= ACTIVITY_FLAG_ATTRS@.subrange(
                69,
                83,
            ));
            lemma_replace_all_holds(content, n, rep_name, lm, nl + 21);
            lemma_replace_all_holds(content, n, rep_name, swl, nl + 69);
        }
        assert(contains(first, swl) && contains(first, lm));
        if back {
            if !attrs {
                lemma_replace_all_keeps(content, n, rep_name, yb);
            }
            assert(activity_flags_edit_spec(content, fqcn) == Some(first));
        } else {
            if !attrs {
                lemma_replace_all_keeps(content, n, rep_name, app);
            }
            let c1 = replace_all(first, app, APPLICATION_BACK_CALLBACK@);
            lemma_replace_all_keeps(first, app, APPLICATION_BACK_CALLBACK@, swl);
            lemma_replace_all_keeps(first, app, APPLICATION_BACK_CALLBACK@, lm);
            lemma_replace_all_holds(first, app, APPLICATION_BACK_CALLBACK@, yb, 21);
            assert(activity_flags_edit_spec(content, fqcn) == Some(c1));
        }
    }
}

} // verus!
