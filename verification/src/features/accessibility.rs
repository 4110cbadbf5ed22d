//! Accessibility capability: the grant flow of the `SentinelAccessibilityService`
//! (which relaunches the kiosk activity if the user reaches Settings while a
//! kiosk session is active). Policy-sensitive on Google Play.
use vstd::prelude::*;
use crate::build::config::{split_exec, split_from, split_on};
use crate::text::{find_char_from, lemma_find_char_from_props};
use crate::text::{char_vecs, chars_of, push_str_chars};

verus! {

/// Whether the user has enabled the accessibility service. Always `false` on this build.
pub fn is_service_enabled() -> (r: bool)
    ensures
        !r,
{
    false
}

/// Open the Accessibility settings so the user can grant the service.
/// Unavailable on this build.
pub fn open_settings() -> (r: Result<(), String>)
    ensures
        r matches Err(m) && m@ == NOT_SUPPORTED@,
{
    Err(NOT_SUPPORTED.to_owned())
}

/// The message of a grant flow that cannot run on this build.
pub const NOT_SUPPORTED: &'static str = "not supported on this platform";

/// The component name of the service for the app `package_name`.
pub open spec fn service_component(package_name: Seq<char>) -> Seq<char> {
    package_name + "/com.mobilesentinel.SentinelAccessibilityService"@
}

/// ASCII letters compare equal regardless of case; other characters only
/// to themselves.
pub open spec fn eq_ignore_ascii_case_char(a: char, b: char) -> bool {
    let x = a as u32;
    let y = b as u32;
    ||| x == y
    ||| (65 <= x <= 90 && x + 32 == y)
    ||| (65 <= y <= 90 && y + 32 == x)
}

/// `str::eq_ignore_ascii_case`.
pub open spec fn eq_ignore_ascii_case(a: Seq<char>, b: Seq<char>) -> bool {
    a.len() == b.len() && forall|i: int| 0 <= i < a.len() ==> eq_ignore_ascii_case_char(#[trigger] a[i], b[i])
}

fn eq_ignore_ascii_case_exec(a: &[char], b: &[char]) -> (r: bool)
    ensures
        r == eq_ignore_ascii_case(a@, b@),
{
    if a.len() != b.len() {
        return false;
    }
    let mut i: usize = 0;
    while i < a.len()
        invariant
            a.len() == b.len(),
            i <= a.len(),
            forall|k: int| 0 <= k < i ==> eq_ignore_ascii_case_char(#[trigger] a@[k], b@[k]),
        decreases a.len() - i,
    {
        let x = a[i] as u32;
        let y = b[i] as u32;
        if !(x == y || (65 <= x && x <= 90 && x + 32 == y) || (65 <= y && y <= 90 && y + 32 == x)) {
            return false;
        }
        i = i + 1;
    }
    true
}

/// Whether the colon-separated list of enabled accessibility services (the
/// secure setting `enabled_accessibility_services`, absent when unset) names
/// the service of the app `package_name`, compared without regard to ASCII
/// case.
pub open spec fn service_listed_spec(enabled: Option<Seq<char>>, package_name: Seq<char>) -> bool {
    match enabled {
        Some(list) => service_listed_in(list, package_name),
        None => false,
    }
}

/// Some entry of the colon-separated `list` is the service of `package_name`.
pub open spec fn service_listed_in(list: Seq<char>, package_name: Seq<char>) -> bool {
    exists|i: int|
        0 <= i < split_on(list, ':').len() && eq_ignore_ascii_case(
            #[trigger] split_on(list, ':')[i],
            service_component(package_name),
        )
}

/// The text of an optional string slice.
pub open spec fn opt_text(o: Option<&str>) -> Option<Seq<char>> {
    match o {
        Some(s) => Some(s@),
        None => None,
    }
}

/// Whether the enabled-services list names this app's accessibility service.
pub fn service_listed(enabled_services: Option<&str>, package_name: &str) -> (r: bool)
    ensures
        r == service_listed_spec(opt_text(enabled_services), package_name@),
{
    match enabled_services {
        Some(list) => {
            let mut needle = chars_of(package_name);
            push_str_chars(&mut needle, "/com.mobilesentinel.SentinelAccessibilityService");
            let lc = chars_of(list);
            let parts = split_exec(lc.as_slice(), ':');
            let mut i: usize = 0;
            while i < parts.len()
                invariant
                    i <= parts.len(),
                    needle@ == service_component(package_name@),
                    opt_text(enabled_services) == Some(list@),
                    char_vecs(parts@) == split_on(list@, ':'),
                    forall|k: int| 0 <= k < i ==> !eq_ignore_ascii_case(#[trigger] split_on(list@, ':')[k], service_component(package_name@)),
                decreases parts.len() - i,
            {
                assert(char_vecs(parts@).len() == parts@.len());
                assert(split_on(list@, ':')[i as int] == parts@[i as int]@);
                if eq_ignore_ascii_case_exec(parts[i].as_slice(), needle.as_slice()) {
                    assert(eq_ignore_ascii_case(split_on(list@, ':')[i as int], service_component(package_name@)));
                    assert(service_listed_in(list@, package_name@));
                    return true;
                }
                i = i + 1;
            }
            false
        },
        None => false,
    }
}

/// Splitting from a position just after a separator gives a suffix of the
/// pieces splitting from an earlier piece start gives.
proof fn lemma_split_suffix(s: Seq<char>, c: char, i: int, j: int) -> (pre: Seq<Seq<char>>)
    requires
        0 <= i <= j <= s.len(),
        j == i || s[j - 1] == c,
    ensures
        split_from(s, c, i) == pre + split_from(s, c, j),
    decreases j - i,
{
    if j == i {
        assert(split_from(s, c, i) =~= Seq::<Seq<char>>::empty() + split_from(s, c, j));
        Seq::<Seq<char>>::empty()
    } else {
        lemma_find_char_from_props(s, c, i);
        let k = find_char_from(s, c, i)->0;
        assert(k <= j - 1);
        let rest = lemma_split_suffix(s, c, k + 1, j);
        let pre = seq![s.subrange(i, k)] + rest;
        assert(split_from(s, c, i) =~= pre + split_from(s, c, j));
        pre
    }
}

/// The piece that starts at `j` (a piece start) and runs to the next
/// separator or the end is the first piece split from `j`.
proof fn lemma_piece_at(s: Seq<char>, c: char, j: int, e: int)
    requires
        0 <= j <= e <= s.len(),
        e == s.len() || s[e] == c,
        forall|k: int| j <= k < e ==> s[k] != c,
    ensures
        split_from(s, c, j).len() > 0,
        split_from(s, c, j)[0] == s.subrange(j, e),
{
    lemma_find_char_from_props(s, c, j);
    if e < s.len() {
        assert(find_char_from(s, c, j) == Some(e));
    }
}

/// The service is found wherever it stands in the list: if any
/// colon-separated entry of the enabled-services list (the text from `j`,
/// just after a colon or at the start, to `e`, the next colon or the end)
/// equals the service of `package_name` without regard to ASCII case, the
/// answer is yes, whatever the other entries are and whatever their number.
pub proof fn law_service_found_at_any_position(
    list: Seq<char>,
    package_name: Seq<char>,
    j: int,
    e: int,
)
    requires
        0 <= j <= e <= list.len(),
        j == 0 || list[j - 1] == ':',
        e == list.len() || list[e] == ':',
        forall|k: int| j <= k < e ==> list[k] != ':',
        eq_ignore_ascii_case(list.subrange(j, e), service_component(package_name)),
    ensures
        service_listed_spec(Some(list), package_name),
{
    let pre = lemma_split_suffix(list, ':', 0, j);
    lemma_piece_at(list, ':', j, e);
    let parts = split_on(list, ':');
    assert(parts[pre.len() as int] == split_from(list, ':', j)[0]);
    assert(eq_ignore_ascii_case(parts[pre.len() as int], service_component(package_name)));
}

} // verus!
