//! Text edits that wire the library into a host Android project.
//!
//! The host project is prepared with three files: `settings.gradle` gets a
//! marker-delimited block that includes `:sentinel-core` and each enabled
//! capability module, the app's `build.gradle.kts` gets a marker-delimited
//! block of `implementation(project(..))` lines, and `AndroidManifest.xml`
//! gets the runtime activity attributes and a marker-delimited injection of
//! the declared capabilities' permissions, features and components.
//!
//! Every edit here is a function from the old file text to the new one; the
//! reading and writing of the files is left to the caller. Re-running an
//! edit first strips the block it wrote before, so the edits are idempotent.
use vstd::prelude::*;

use crate::build::registry::ManifestInjection;
use crate::text::{
    char_vecs, chars_eq, chars_of, contains, contains_exec, contains_str, find, find_char_from,
    find_char_from_exec, find_exec, find_from, find_from_exec, is_ascii_whitespace, is_ascii_ws,
    is_whitespace, is_ws, lemma_find_char_from_props, lemma_find_from_props,
    lemma_rfind_char_below_props, lines_exec, push_chars, push_str_chars, rfind_char,
    rfind_char_below, rfind_char_below_exec, slice_chars, split_lines, starts_with,
    starts_with_exec, string_of, strs, texts, trim_end, trim_end_chars,
};

verus! {

/// Marker comment that delimits the capability injection in the manifest.
pub const INJECTION_MARKER: &'static str = "<!-- mobile-sentinel:capabilities -->";

/// Marker that delimits the module wiring in the Gradle files.
pub const GRADLE_MARKER: &'static str = "mobile-sentinel:modules";

// ---------------------------------------------------------------------------
// Marker blocks
// ---------------------------------------------------------------------------

/// The text kept of `lines` by the marker scan: a line holding `marker`
/// toggles skipping and is dropped; any other line is kept (with a `'\n'`)
/// unless skipping.
pub open spec fn kept_lines(lines: Seq<Seq<char>>, marker: Seq<char>, skipping: bool) -> Seq<
    char,
>
    decreases lines.len(),
{
    if lines.len() == 0 {
        seq![]
    } else if contains(lines[0], marker) {
        kept_lines(lines.drop_first(), marker, !skipping)
    } else if skipping {
        kept_lines(lines.drop_first(), marker, skipping)
    } else {
        lines[0].push('\n') + kept_lines(lines.drop_first(), marker, skipping)
    }
}

/// `content` with every `marker … marker` span of lines removed, each kept
/// line ended by `'\n'`.
pub open spec fn strip_marker_block_spec(content: Seq<char>, marker: Seq<char>) -> Seq<char> {
    kept_lines(split_lines(content), marker, false)
}

/// Remove a previously written marker-delimited block (a `MARKER … MARKER`
/// span of lines). Leaves all other lines intact, each ended by a newline.
pub fn strip_marker_block(content: &str, marker: &str) -> (r: String)
    ensures
        r@ == strip_marker_block_spec(content@, marker@),
{
    let cs = chars_of(content);
    let mk = chars_of(marker);
    let lines = lines_exec(cs.as_slice());
    let ghost all = char_vecs(lines@);
    let mut out: Vec<char> = Vec::new();
    let mut skipping = false;
    let mut i: usize = 0;
    assert(all.skip(0) =~= all);
    while i < lines.len()
        invariant
            i <= lines.len(),
            all == char_vecs(lines@),
            all == split_lines(content@),
            mk@ == marker@,
            out@ + kept_lines(all.skip(i as int), mk@, skipping) == kept_lines(all, mk@, false),
        decreases lines.len() - i,
    {
        let ghost rest = all.skip(i as int);
        assert(rest.drop_first() =~= all.skip(i + 1));
        assert(rest[0] == lines@[i as int]@);
        let ghost before = out@;
        if contains_exec(lines[i].as_slice(), mk.as_slice()) {
            skipping = !skipping;
        } else if !skipping {
            push_chars(&mut out, lines[i].as_slice());
            out.push('\n');
            assert(before + (rest[0].push('\n') + kept_lines(all.skip(i + 1), mk@, skipping))
                =~= out@ + kept_lines(all.skip(i + 1), mk@, skipping));
        }
        i = i + 1;
    }
    assert(all.skip(i as int) =~= Seq::<Seq<char>>::empty());
    assert(out@ + Seq::<char>::empty() =~= out@);
    string_of(out.as_slice())
}

/// Remove a previously injected capability block (both the manifest-scope
/// and the application-scope segments) from a manifest.
pub fn strip_injection_block(content: &str) -> (r: String)
    ensures
        r@ == strip_marker_block_spec(content@, INJECTION_MARKER@),
{
    strip_marker_block(content, INJECTION_MARKER)
}

// ---------------------------------------------------------------------------
// The manifest injection
// ---------------------------------------------------------------------------

/// Each line followed by `'\n'`, concatenated.
pub open spec fn joined_lines(lines: Seq<Seq<char>>) -> Seq<char>
    decreases lines.len(),
{
    if lines.len() == 0 {
        seq![]
    } else {
        joined_lines(lines.drop_last()) + lines.last().push('\n')
    }
}

/// `indent`, the marker and a newline.
pub open spec fn marker_line(indent: Seq<char>, marker: Seq<char>) -> Seq<char> {
    (indent + marker).push('\n')
}

/// `lines` between two marker lines with the given indent; empty when there
/// are no lines.
pub open spec fn marked_block(indent: Seq<char>, lines: Seq<Seq<char>>) -> Seq<char> {
    if lines.len() == 0 {
        seq![]
    } else {
        marker_line(indent, INJECTION_MARKER@) + joined_lines(lines) + marker_line(
            indent,
            INJECTION_MARKER@,
        )
    }
}

/// The `<manifest>`-scope block: the permission and feature lines.
pub open spec fn manifest_block_spec(manifest_lines: Seq<Seq<char>>) -> Seq<char> {
    marked_block("    "@, manifest_lines)
}

/// The `<application>`-scope block: the component XML.
pub open spec fn component_block_spec(components: Seq<Seq<char>>) -> Seq<char> {
    marked_block("        "@, components)
}

fn push_joined(out: &mut Vec<char>, lines: &Vec<String>)
    ensures
        final(out)@ == old(out)@ + joined_lines(strs(lines@)),
{
    let ghost start = out@;
    let mut i: usize = 0;
    assert(strs(lines@).take(0) =~= Seq::<Seq<char>>::empty());
    while i < lines.len()
        invariant
            i <= lines.len(),
            out@ == start + joined_lines(strs(lines@).take(i as int)),
        decreases lines.len() - i,
    {
        let ghost before = out@;
        push_str_chars(out, lines[i].as_str());
        out.push('\n');
        let ghost t = strs(lines@).take(i + 1);
        assert(t.drop_last() =~= strs(lines@).take(i as int));
        assert(t.last() == lines@[i as int]@);
        assert(out@ =~= start + joined_lines(t));
        i = i + 1;
    }
    assert(strs(lines@).take(lines.len() as int) =~= strs(lines@));
}

fn marked_block_exec(indent: &str, lines: &Vec<String>) -> (r: Vec<char>)
    ensures
        r@ == marked_block(indent@, strs(lines@)),
{
    let mut out: Vec<char> = Vec::new();
    if lines.len() == 0 {
        return out;
    }
    push_str_chars(&mut out, indent);
    push_str_chars(&mut out, INJECTION_MARKER);
    out.push('\n');
    push_joined(&mut out, lines);
    push_str_chars(&mut out, indent);
    push_str_chars(&mut out, INJECTION_MARKER);
    out.push('\n');
    assert(out@ =~= marked_block(indent@, strs(lines@)));
    out
}

/// Render the `<manifest>`-scope lines (permissions and features) as one
/// marker-delimited block, or the empty string when there are none.
pub fn render_manifest_block(injection: &ManifestInjection) -> (r: String)
    ensures
        r@ == manifest_block_spec(strs(injection.manifest_lines@)),
{
    let b = marked_block_exec("    ", &injection.manifest_lines);
    string_of(b.as_slice())
}

/// The start of the line that holds position `idx`.
pub open spec fn line_start(s: Seq<char>, idx: int) -> int {
    match rfind_char_below(s, '\n', idx) {
        Some(n) => n + 1,
        None => 0,
    }
}

/// `block` inserted at the start of the line holding the first occurrence of
/// `pat`; `s` unchanged when `pat` does not occur.
pub open spec fn insert_before_line_of(s: Seq<char>, pat: Seq<char>, block: Seq<char>) -> Seq<
    char,
> {
    match find(s, pat) {
        Some(idx) => {
            let ls = line_start(s, idx);
            s.take(ls) + block + s.skip(ls)
        },
        None => s,
    }
}

/// The manifest `stripped` with both injection blocks spliced in: the
/// manifest-scope block at the start of the `<application` line, then the
/// component block at the start of the `</application>` line.
pub open spec fn splice_spec(
    stripped: Seq<char>,
    manifest_lines: Seq<Seq<char>>,
    components: Seq<Seq<char>>,
) -> Seq<char> {
    let mb = manifest_block_spec(manifest_lines);
    let r1 = if mb.len() > 0 {
        insert_before_line_of(stripped, "<application"@, mb)
    } else {
        stripped
    };
    if components.len() > 0 {
        insert_before_line_of(r1, "</application>"@, component_block_spec(components))
    } else {
        r1
    }
}

fn insert_before_line_of_exec(s: Vec<char>, pat: &str, block: &[char]) -> (r: Vec<char>)
    ensures
        r@ == insert_before_line_of(s@, pat@, block@),
{
    let p = chars_of(pat);
    match find_exec(s.as_slice(), p.as_slice()) {
        Some(idx) => {
            proof {
                lemma_find_from_props(s@, pat@, 0);
            }
            proof {
                lemma_rfind_char_below_props(s@, '\n', idx as int);
            }
            let ls = match rfind_char_below_exec(s.as_slice(), '\n', idx) {
                Some(n) => n + 1,
                None => 0,
            };
            let mut out = slice_chars(s.as_slice(), 0, ls);
            push_chars(&mut out, block);
            let tail = slice_chars(s.as_slice(), ls, s.len());
            push_chars(&mut out, tail.as_slice());
            assert(s@.subrange(0, ls as int) =~= s@.take(ls as int));
            assert(s@.subrange(ls as int, s@.len() as int) =~= s@.skip(ls as int));
            out
        },
        None => s,
    }
}

/// Splice both injection segments into the stripped manifest:
/// permission/feature lines just before the `<application` line, component
/// XML just before the `</application>` line.
pub fn splice_injection(stripped: &str, injection: &ManifestInjection) -> (r: String)
    ensures
        r@ == splice_spec(
            stripped@,
            strs(injection.manifest_lines@),
            strs(injection.application_components@),
        ),
{
    let mut result = chars_of(stripped);
    let mb = marked_block_exec("    ", &injection.manifest_lines);
    if mb.len() > 0 {
        result = insert_before_line_of_exec(result, "<application", mb.as_slice());
    }
    if injection.application_components.len() > 0 {
        let cb = marked_block_exec("        ", &injection.application_components);
        result = insert_before_line_of_exec(result, "</application>", cb.as_slice());
    }
    string_of(result.as_slice())
}

// ---------------------------------------------------------------------------
// Attributes of a tag
// ---------------------------------------------------------------------------

/// Every character of `s` is ASCII.
pub open spec fn is_ascii(s: Seq<char>) -> bool {
    forall|i: int| 0 <= i < s.len() ==> (s[i] as u32) < 128
}

/// The first position at or after `i` that is not ASCII whitespace.
pub open spec fn skip_ascii_ws(s: Seq<char>, i: int) -> int
    decreases s.len() - i,
{
    if 0 <= i < s.len() && is_ascii_ws(s[i]) {
        skip_ascii_ws(s, i + 1)
    } else {
        i
    }
}

proof fn lemma_skip_ascii_ws(s: Seq<char>, i: int)
    requires
        0 <= i,
    ensures
        i <= skip_ascii_ws(s, i),
        i <= s.len() ==> skip_ascii_ws(s, i) <= s.len(),
    decreases s.len() - i,
{
    if 0 <= i < s.len() && is_ascii_ws(s[i]) {
        lemma_skip_ascii_ws(s, i + 1);
    }
}

/// What the scan of `tag` from position `i` keeps: where `prefix` (the
/// attribute name, `=` and the opening quote) starts, everything up to the
/// closing `'"'` and the ASCII whitespace that follows is dropped; any other
/// character is kept.
pub open spec fn remove_attr_from(tag: Seq<char>, prefix: Seq<char>, i: int) -> Seq<char>
    decreases tag.len() - i,
{
    if i < 0 || i >= tag.len() {
        seq![]
    } else {
        match find_char_from(tag, '"', i + prefix.len()) {
            Some(q) => if starts_with(tag.skip(i), prefix) && i <= q < tag.len()
                && skip_ascii_ws(tag, q + 1) <= tag.len() && i < skip_ascii_ws(tag, q + 1) {
                remove_attr_from(tag, prefix, skip_ascii_ws(tag, q + 1))
            } else {
                seq![tag[i]] + remove_attr_from(tag, prefix, i + 1)
            },
            None => seq![tag[i]] + remove_attr_from(tag, prefix, i + 1),
        }
    }
}

/// `tag` with every `attr_name="…"` attribute (and the whitespace after it)
/// removed.
pub open spec fn remove_attr_spec(tag: Seq<char>, attr_name: Seq<char>) -> Seq<char> {
    remove_attr_from(tag, attr_name + "=\""@, 0)
}

/// Remove an attribute like `android:foo="bar"` (through its closing quote,
/// and the whitespace after it) from a tag. Used by orientation injection so a previous value
/// can be overwritten when the build configuration changes. The tag is
/// scanned byte by byte, so it must be ASCII.
pub fn remove_attr(tag: &str, attr_name: &str) -> (r: String)
    requires
        is_ascii(tag@),
    ensures
        r@ == remove_attr_spec(tag@, attr_name@),
{
    let t = chars_of(tag);
    let mut prefix = chars_of(attr_name);
    push_str_chars(&mut prefix, "=\"");
    let mut out: Vec<char> = Vec::new();
    let mut i: usize = 0;
    while i < t.len()
        invariant
            i <= t.len(),
            t@ == tag@,
            out@ + remove_attr_from(t@, prefix@, i as int) == remove_attr_from(t@, prefix@, 0),
        decreases t.len() - i,
    {
        let tail = slice_chars(t.as_slice(), i, t.len());
        assert(tail@ =~= t@.skip(i as int));
        if starts_with_exec(tail.as_slice(), prefix.as_slice()) {
            proof {
                lemma_find_char_from_props(t@, '"', i + prefix@.len());
            }
            match find_char_from_exec(t.as_slice(), '"', i + prefix.len()) {
                Some(q) => {
                    let mut end = q + 1;
                    proof {
                        lemma_skip_ascii_ws(t@, end as int);
                    }
                    while end < t.len() && is_ascii_whitespace(t[end])
                        invariant
                            q + 1 <= end <= t.len(),
                            skip_ascii_ws(t@, end as int) == skip_ascii_ws(t@, q + 1),
                        decreases t.len() - end,
                    {
                        end = end + 1;
                    }
                    i = end;
                    continue;
                },
                None => {},
            }
        }
        let ghost before = out@;
        out.push(t[i]);
        i = i + 1;
        assert(before + (seq![t@[i - 1]] + remove_attr_from(t@, prefix@, i as int)) =~= out@
            + remove_attr_from(t@, prefix@, i as int));
    }
    assert(out@ + Seq::<char>::empty() =~= out@);
    string_of(out.as_slice())
}

/// `attr` placed just before the last `'>'` of `tag`, after a space unless
/// whitespace already precedes the `'>'`; `tag` unchanged without a `'>'`.
pub open spec fn insert_attr_spec(tag: Seq<char>, attr: Seq<char>) -> Seq<char> {
    match rfind_char(tag, '>') {
        Some(pos) => {
            let before = tag.take(pos);
            let close = tag.skip(pos);
            if before.len() > 0 && is_ws(before.last()) {
                before + attr + close
            } else {
                before + seq![' '] + attr + close
            }
        },
        None => tag,
    }
}

fn insert_attr_chars(tag: &[char], attr: &[char]) -> (r: Vec<char>)
    ensures
        r@ == insert_attr_spec(tag@, attr@),
{
    proof {
        lemma_rfind_char_below_props(tag@, '>', tag@.len() as int);
    }
    match rfind_char_below_exec(tag, '>', tag.len()) {
        Some(pos) => {
            let mut out = slice_chars(tag, 0, pos);
            assert(out@ =~= tag@.take(pos as int));
            if !(pos > 0 && is_whitespace(tag[pos - 1])) {
                out.push(' ');
            }
            push_chars(&mut out, attr);
            let close = slice_chars(tag, pos, tag.len());
            assert(close@ =~= tag@.skip(pos as int));
            push_chars(&mut out, close.as_slice());
            out
        },
        None => {
            let mut out: Vec<char> = Vec::new();
            push_chars(&mut out, tag);
            assert(out@ =~= tag@);
            out
        },
    }
}

/// Insert `attr` (e.g. `android:screenOrientation="portrait"`) immediately
/// before the final `>` of the tag, adding a space if needed.
pub fn insert_attr_before_close(tag: &str, attr: &str) -> (r: String)
    ensures
        r@ == insert_attr_spec(tag@, attr@),
{
    let t = chars_of(tag);
    let a = chars_of(attr);
    let r = insert_attr_chars(t.as_slice(), a.as_slice());
    string_of(r.as_slice())
}

// ---------------------------------------------------------------------------
// The main activity
// ---------------------------------------------------------------------------

/// `android:name="<fqcn>"`, which names the main activity.
pub open spec fn name_needle(fqcn: Seq<char>) -> Seq<char> {
    "android:name=\""@ + fqcn + "\""@
}

/// `android:screenOrientation="<orientation>"`.
pub open spec fn orientation_attr(orientation: Seq<char>) -> Seq<char> {
    "android:screenOrientation=\""@ + orientation + "\""@
}

/// Where the opening tag of the activity `fqcn` lies in the manifest: from
/// its `android:name` attribute to the first `'>'` after it, inclusive.
pub open spec fn activity_tag_span(content: Seq<char>, fqcn: Seq<char>) -> Option<(int, int)> {
    match find(content, name_needle(fqcn)) {
        Some(p) => match find_char_from(content, '>', p) {
            Some(c) => Some((p, c)),
            None => None,
        },
        None => None,
    }
}

/// The text of that span.
pub open spec fn activity_tag(content: Seq<char>, fqcn: Seq<char>) -> Option<Seq<char>> {
    match activity_tag_span(content, fqcn) {
        Some((p, c)) => Some(content.subrange(p, c + 1)),
        None => None,
    }
}

/// The manifest with `android:screenOrientation` on the activity `fqcn` set
/// to `orientation`; `None` when the activity or the end of its tag is not
/// found, or when the tag already carries that value.
pub open spec fn orientation_edit(content: Seq<char>, fqcn: Seq<char>, orientation: Seq<char>) -> Option<
    Seq<char>,
> {
    match activity_tag_span(content, fqcn) {
        Some((p, c)) => {
            let tag = content.subrange(p, c + 1);
            if contains(tag, orientation_attr(orientation)) {
                None
            } else {
                let updated = insert_attr_spec(
                    remove_attr_spec(tag, "android:screenOrientation"@),
                    orientation_attr(orientation),
                );
                if updated != tag {
                    Some(content.take(p) + updated + content.skip(c + 1))
                } else {
                    None
                }
            }
        },
        None => None,
    }
}

fn activity_tag_span_exec(content: &[char], fqcn: &str) -> (r: Option<(usize, usize)>)
    ensures
        match r {
            Some((p, c)) => activity_tag_span(content@, fqcn@) == Some((p as int, c as int)) && p
                <= c < content.len(),
            None => activity_tag_span(content@, fqcn@) is None,
        },
{
    let mut needle: Vec<char> = Vec::new();
    push_str_chars(&mut needle, "android:name=\"");
    push_str_chars(&mut needle, fqcn);
    push_str_chars(&mut needle, "\"");
    assert(needle@ =~= name_needle(fqcn@));
    match find_exec(content, needle.as_slice()) {
        Some(p) => {
            proof {
                lemma_find_from_props(content@, needle@, 0);
                lemma_find_char_from_props(content@, '>', p as int);
            }
            match find_char_from_exec(content, '>', p) {
                Some(c) => Some((p, c)),
                None => None,
            }
        },
        None => None,
    }
}

/// The opening tag of the activity `fqcn` in the manifest, from its
/// `android:name` attribute to the first `'>'` after it.
pub fn find_activity_tag(content: &str, fqcn: &str) -> (r: Option<String>)
    ensures
        match r {
            Some(t) => activity_tag(content@, fqcn@) == Some(t@),
            None => activity_tag(content@, fqcn@) is None,
        },
{
    let cs = chars_of(content);
    match activity_tag_span_exec(cs.as_slice(), fqcn) {
        Some((p, c)) => {
            let t = slice_chars(cs.as_slice(), p, c + 1);
            Some(string_of(t.as_slice()))
        },
        None => None,
    }
}

/// Inject (or overwrite) `android:screenOrientation="…"` on the opening tag
/// of the activity `activity_fqcn`. Returns the new manifest, or `None` when
/// nothing is to be written (activity not found, or already set to that
/// value). A tag that must be rewritten is edited byte by byte, so it must
/// then be ASCII.
pub fn screen_orientation_edit(content: &str, activity_fqcn: &str, orientation: &str) -> (r:
    Option<String>)
    requires
        activity_tag(content@, activity_fqcn@) matches Some(t) ==> (contains(
            t,
            orientation_attr(orientation@),
        ) || is_ascii(t)),
    ensures
        match r {
            Some(s) => orientation_edit(content@, activity_fqcn@, orientation@) == Some(s@),
            None => orientation_edit(content@, activity_fqcn@, orientation@) is None,
        },
{
    let cs = chars_of(content);
    match activity_tag_span_exec(cs.as_slice(), activity_fqcn) {
        Some((p, c)) => {
            let tag = slice_chars(cs.as_slice(), p, c + 1);
            let mut desired: Vec<char> = Vec::new();
            push_str_chars(&mut desired, "android:screenOrientation=\"");
            push_str_chars(&mut desired, orientation);
            push_str_chars(&mut desired, "\"");
            assert(desired@ =~= orientation_attr(orientation@));
            if contains_exec(tag.as_slice(), desired.as_slice()) {
                return None;
            }
            let tag_str = string_of(tag.as_slice());
            let cleaned = remove_attr(tag_str.as_str(), "android:screenOrientation");
            let cleaned_chars = chars_of(cleaned.as_str());
            let updated = insert_attr_chars(cleaned_chars.as_slice(), desired.as_slice());
            if chars_eq(updated.as_slice(), tag.as_slice()) {
                return None;
            }
            let mut out = slice_chars(cs.as_slice(), 0, p);
            push_chars(&mut out, updated.as_slice());
            let tail = slice_chars(cs.as_slice(), c + 1, cs.len());
            push_chars(&mut out, tail.as_slice());
            assert(cs@.subrange(0, p as int) =~= cs@.take(p as int));
            assert(cs@.subrange(c + 1, cs@.len() as int) =~= cs@.skip(c + 1));
            Some(string_of(out.as_slice()))
        },
        None => None,
    }
}

/// `s` from position `i` with every non-overlapping occurrence of `pat`
/// (scanning left to right) replaced by `rep`.
pub open spec fn replace_from(s: Seq<char>, pat: Seq<char>, rep: Seq<char>, i: int) -> Seq<char>
    decreases s.len() - i,
{
    if i < 0 || i > s.len() {
        seq![]
    } else {
        match find_from(s, pat, i) {
            Some(j) => if pat.len() > 0 && i <= j && j + pat.len() <= s.len() {
                s.subrange(i, j) + rep + replace_from(s, pat, rep, j + pat.len())
            } else {
                s.skip(i)
            },
            None => s.skip(i),
        }
    }
}

/// `str::replace` with a non-empty pattern.
pub open spec fn replace_all(s: Seq<char>, pat: Seq<char>, rep: Seq<char>) -> Seq<char> {
    replace_from(s, pat, rep, 0)
}

fn replace_all_exec(s: &[char], pat: &[char], rep: &[char]) -> (r: Vec<char>)
    requires
        pat@.len() > 0,
    ensures
        r@ == replace_all(s@, pat@, rep@),
{
    let mut out: Vec<char> = Vec::new();
    let mut i: usize = 0;
    while i <= s.len()
        invariant
            i <= s.len(),
            pat@.len() > 0,
            out@ + replace_from(s@, pat@, rep@, i as int) == replace_all(s@, pat@, rep@),
        decreases s.len() - i,
    {
        proof {
            lemma_find_from_props(s@, pat@, i as int);
        }
        let ghost before = out@;
        match find_from_exec(s, pat, i) {
            Some(j) => {
                let mid = slice_chars(s, i, j);
                push_chars(&mut out, mid.as_slice());
                push_chars(&mut out, rep);
                assert(before + (s@.subrange(i as int, j as int) + rep@ + replace_from(
                    s@,
                    pat@,
                    rep@,
                    j + pat@.len(),
                )) =~= out@ + replace_from(s@, pat@, rep@, j + pat@.len()));
                i = j + pat.len();
            },
            None => {
                let rest = slice_chars(s, i, s.len());
                push_chars(&mut out, rest.as_slice());
                assert(rest@ =~= s@.skip(i as int));
                return out;
            },
        }
    }
    out
}

/// The attributes added after the main activity's `android:name`.
pub const ACTIVITY_FLAG_ATTRS: &'static str = "\n            android:launchMode=\"singleInstance\"\n            android:showWhenLocked=\"true\"\n            android:turnScreenOn=\"true\"";

/// The opening of the application tag with the predictive-back opt-in.
pub const APPLICATION_BACK_CALLBACK: &'static str = "<application android:enableOnBackInvokedCallback=\"true\"";

/// The manifest with the runtime activity attributes applied: the activity
/// `fqcn` gets `launchMode="singleInstance"`, `showWhenLocked` and
/// `turnScreenOn` (unless the manifest already names `showWhenLocked` and
/// `launchMode`), and the application opts into predictive back (unless the
/// manifest already names `enableOnBackInvokedCallback`). `None` when both
/// are already present.
pub open spec fn activity_flags_edit_spec(content: Seq<char>, fqcn: Seq<char>) -> Option<Seq<char>> {
    let attrs = contains(content, "showWhenLocked"@) && contains(content, "launchMode"@);
    let back = contains(content, "enableOnBackInvokedCallback"@);
    if attrs && back {
        None
    } else {
        let first = if attrs {
            content
        } else {
            replace_all(content, name_needle(fqcn), name_needle(fqcn) + ACTIVITY_FLAG_ATTRS@)
        };
        Some(
            if back {
                first
            } else {
                replace_all(first, "<application"@, APPLICATION_BACK_CALLBACK@)
            },
        )
    }
}

/// Add `showWhenLocked`, `turnScreenOn` and `launchMode="singleInstance"` to
/// the caller-nominated activity and opt the application into predictive
/// back. Returns the new manifest, or `None` when it is already configured.
///
/// `singleInstance` is critical: without it a concurrent `startActivity` and
/// a notification tap can both spawn an activity, producing two colliding
/// native event loops.
pub fn activity_flags_edit(content: &str, activity_fqcn: &str) -> (r: Option<String>)
    ensures
        match r {
            Some(s) => activity_flags_edit_spec(content@, activity_fqcn@) == Some(s@),
            None => activity_flags_edit_spec(content@, activity_fqcn@) is None,
        },
{
    let cs = chars_of(content);
    let attrs = contains_str(cs.as_slice(), "showWhenLocked") && contains_str(
        cs.as_slice(),
        "launchMode",
    );
    let back = contains_str(cs.as_slice(), "enableOnBackInvokedCallback");
    if attrs && back {
        return None;
    }
    let first = if attrs {
        cs
    } else {
        let mut needle: Vec<char> = Vec::new();
        push_str_chars(&mut needle, "android:name=\"");
        push_str_chars(&mut needle, activity_fqcn);
        push_str_chars(&mut needle, "\"");
        assert(needle@ =~= name_needle(activity_fqcn@));
        proof {
            reveal_strlit("\"");
        }
        let mut rep: Vec<char> = Vec::new();
        push_chars(&mut rep, needle.as_slice());
        push_str_chars(&mut rep, ACTIVITY_FLAG_ATTRS);
        replace_all_exec(cs.as_slice(), needle.as_slice(), rep.as_slice())
    };
    let result = if back {
        first
    } else {
        let pat = chars_of("<application");
        let rep = chars_of(APPLICATION_BACK_CALLBACK);
        proof {
            reveal_strlit("<application");
        }
        replace_all_exec(first.as_slice(), pat.as_slice(), rep.as_slice())
    };
    Some(string_of(result.as_slice()))
}

// ---------------------------------------------------------------------------
// Gradle module wiring
// ---------------------------------------------------------------------------

/// The `settings.gradle` lines that include the module `m`.
pub open spec fn settings_include(path: Seq<char>, m: Seq<char>) -> Seq<char> {
    "include ':sentinel-"@ + m + "'\n"@ + "project(':sentinel-"@ + m
        + "').projectDir = new File('"@ + path + "/caps/"@ + m + "')\n"@
}

/// The include lines of all `modules`, in order.
pub open spec fn settings_includes(path: Seq<char>, modules: Seq<Seq<char>>) -> Seq<char>
    decreases modules.len(),
{
    if modules.len() == 0 {
        seq![]
    } else {
        settings_includes(path, modules.drop_last()) + settings_include(path, modules.last())
    }
}

/// The marker-delimited `settings.gradle` block: `:sentinel-core` at
/// `<path>/core`, then each module at `<path>/caps/<module>`.
pub open spec fn settings_block(path: Seq<char>, modules: Seq<Seq<char>>) -> Seq<char> {
    "// "@ + GRADLE_MARKER@ + "\n"@ + "include ':sentinel-core'\n"@
        + "project(':sentinel-core').projectDir = new File('"@ + path + "/core')\n"@
        + settings_includes(path, modules) + "// "@ + GRADLE_MARKER@ + "\n"@
}

/// The new `settings.gradle`: the old one without its previous block and
/// trailing whitespace, a newline, and the block.
pub open spec fn settings_edit(content: Seq<char>, path: Seq<char>, modules: Seq<Seq<char>>) -> Seq<
    char,
> {
    trim_end(strip_marker_block_spec(content, GRADLE_MARKER@)) + seq!['\n'] + settings_block(
        path,
        modules,
    )
}

/// Include `:sentinel-core` and each enabled capability module in the
/// consumer's `settings.gradle`, pointing each at its directory under the
/// crate's `android/` tree (`sentinel_path`). Rewrites the marker-delimited
/// block, so toggling capabilities never leaves stale includes.
pub fn settings_gradle_edit(content: &str, sentinel_path: &str, modules: &[&str]) -> (r: String)
    ensures
        r@ == settings_edit(content@, sentinel_path@, texts(modules@)),
{
    let stripped = strip_marker_block(content, GRADLE_MARKER);
    let sc = chars_of(stripped.as_str());
    let mut out = trim_end_chars(sc.as_slice());
    out.push('\n');
    let ghost head = out@;
    push_str_chars(&mut out, "// ");
    push_str_chars(&mut out, GRADLE_MARKER);
    push_str_chars(&mut out, "\n");
    push_str_chars(&mut out, "include ':sentinel-core'\n");
    push_str_chars(&mut out, "project(':sentinel-core').projectDir = new File('");
    push_str_chars(&mut out, sentinel_path);
    push_str_chars(&mut out, "/core')\n");
    let ghost opening = out@;
    let mut i: usize = 0;
    assert(texts(modules@).take(0) =~= Seq::<Seq<char>>::empty());
    while i < modules.len()
        invariant
            i <= modules.len(),
            out@ == opening + settings_includes(sentinel_path@, texts(modules@).take(i as int)),
        decreases modules.len() - i,
    {
        let m = modules[i];
        push_str_chars(&mut out, "include ':sentinel-");
        push_str_chars(&mut out, m);
        push_str_chars(&mut out, "'\n");
        push_str_chars(&mut out, "project(':sentinel-");
        push_str_chars(&mut out, m);
        push_str_chars(&mut out, "').projectDir = new File('");
        push_str_chars(&mut out, sentinel_path);
        push_str_chars(&mut out, "/caps/");
        push_str_chars(&mut out, m);
        push_str_chars(&mut out, "')\n");
        let ghost t = texts(modules@).take(i + 1);
        assert(t.drop_last() =~= texts(modules@).take(i as int));
        assert(t.last() == m@);
        assert(out@ =~= opening + settings_includes(sentinel_path@, t));
        i = i + 1;
    }
    assert(texts(modules@).take(modules.len() as int) =~= texts(modules@));
    push_str_chars(&mut out, "// ");
    push_str_chars(&mut out, GRADLE_MARKER);
    push_str_chars(&mut out, "\n");
    assert(out@ =~= settings_edit(content@, sentinel_path@, texts(modules@)));
    string_of(out.as_slice())
}

/// The `build.gradle.kts` dependency line of the module `m`.
pub open spec fn dependency_line(m: Seq<char>) -> Seq<char> {
    "    implementation(project(\":sentinel-"@ + m + "\"))\n"@
}

/// The dependency lines of all `modules`, in order.
pub open spec fn dependency_lines(modules: Seq<Seq<char>>) -> Seq<char>
    decreases modules.len(),
{
    if modules.len() == 0 {
        seq![]
    } else {
        dependency_lines(modules.drop_last()) + dependency_line(modules.last())
    }
}

/// The marker-delimited dependency block: `:sentinel-core`, then each
/// module.
pub open spec fn dependencies_block(modules: Seq<Seq<char>>) -> Seq<char> {
    "    // "@ + GRADLE_MARKER@ + "\n"@ + "    implementation(project(\":sentinel-core\"))\n"@
        + dependency_lines(modules) + "    // "@ + GRADLE_MARKER@ + "\n"@
}

/// The new `build.gradle.kts`: the old one without its previous block, with
/// the block on the lines right after the first `dependencies {` (after a
/// line break of its own when that line goes on); without one, a
/// `dependencies { … }` section holding the block is appended.
pub open spec fn dependencies_edit(content: Seq<char>, modules: Seq<Seq<char>>) -> Seq<char> {
    let stripped = strip_marker_block_spec(content, GRADLE_MARKER@);
    match find(stripped, "dependencies {"@) {
        Some(idx) => {
            let at = idx + "dependencies {"@.len();
            if at < stripped.len() && stripped[at] == '\n' {
                stripped.take(at + 1) + dependencies_block(modules) + stripped.skip(at + 1)
            } else {
                stripped.take(at) + seq!['\n'] + dependencies_block(modules) + stripped.skip(at)
            }
        },
        None => trim_end(stripped) + "\n\ndependencies {\n"@ + dependencies_block(modules)
            + "}\n"@,
    }
}

/// Add `implementation(project(..))` for `:sentinel-core` and each enabled
/// capability module to the app module's `build.gradle.kts`, through the
/// marker block.
pub fn module_dependencies_edit(content: &str, modules: &[&str]) -> (r: String)
    ensures
        r@ == dependencies_edit(content@, texts(modules@)),
{
    let stripped = strip_marker_block(content, GRADLE_MARKER);
    let sc = chars_of(stripped.as_str());
    let mut deps: Vec<char> = Vec::new();
    push_str_chars(&mut deps, "    // ");
    push_str_chars(&mut deps, GRADLE_MARKER);
    push_str_chars(&mut deps, "\n");
    push_str_chars(&mut deps, "    implementation(project(\":sentinel-core\"))\n");
    let ghost opening = deps@;
    let mut i: usize = 0;
    assert(texts(modules@).take(0) =~= Seq::<Seq<char>>::empty());
    while i < modules.len()
        invariant
            i <= modules.len(),
            deps@ == opening + dependency_lines(texts(modules@).take(i as int)),
        decreases modules.len() - i,
    {
        push_str_chars(&mut deps, "    implementation(project(\":sentinel-");
        push_str_chars(&mut deps, modules[i]);
        push_str_chars(&mut deps, "\"))\n");
        let ghost t = texts(modules@).take(i + 1);
        assert(t.drop_last() =~= texts(modules@).take(i as int));
        assert(t.last() == modules@[i as int]@);
        assert(deps@ =~= opening + dependency_lines(t));
        i = i + 1;
    }
    assert(texts(modules@).take(modules.len() as int) =~= texts(modules@));
    push_str_chars(&mut deps, "    // ");
    push_str_chars(&mut deps, GRADLE_MARKER);
    push_str_chars(&mut deps, "\n");
    assert(deps@ =~= dependencies_block(texts(modules@)));
    let key = chars_of("dependencies {");
    match find_exec(sc.as_slice(), key.as_slice()) {
        Some(idx) => {
            proof {
                lemma_find_from_props(sc@, key@, 0);
                assert(crate::text::matches_at(sc@, key@, idx as int));
                assert(idx + key.len() <= sc.len());
            }
            let at = idx + key.len();
            if at < sc.len() && sc[at] == '\n' {
                // The block goes on the lines right after `dependencies {`.
                let mut out = slice_chars(sc.as_slice(), 0, at + 1);
                push_chars(&mut out, deps.as_slice());
                let tail = slice_chars(sc.as_slice(), at + 1, sc.len());
                push_chars(&mut out, tail.as_slice());
                assert(sc@.subrange(0, at + 1) =~= sc@.take(at + 1));
                assert(tail@ =~= sc@.skip(at + 1));
                assert(out@ =~= dependencies_edit(content@, texts(modules@)));
                string_of(out.as_slice())
            } else {
                let mut out = slice_chars(sc.as_slice(), 0, at);
                out.push('\n');
                push_chars(&mut out, deps.as_slice());
                let tail = slice_chars(sc.as_slice(), at, sc.len());
                push_chars(&mut out, tail.as_slice());
                assert(sc@.subrange(0, at as int) =~= sc@.take(at as int));
                assert(tail@ =~= sc@.skip(at as int));
                assert(out@ =~= dependencies_edit(content@, texts(modules@)));
                string_of(out.as_slice())
            }
        },
        None => {
            let mut out = trim_end_chars(sc.as_slice());
            push_str_chars(&mut out, "\n\ndependencies {\n");
            push_chars(&mut out, deps.as_slice());
            push_str_chars(&mut out, "}\n");
            assert(out@ =~= dependencies_edit(content@, texts(modules@)));
            string_of(out.as_slice())
        },
    }
}

} // verus!
