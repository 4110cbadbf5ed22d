//! Monotonically increasing revision numbers.
use std::cmp::Ordering;

use vstd::prelude::*;
use vstd::std_specs::cmp::PartialOrdSpec;

verus! {

/// Monotonically increasing revision number of a stored record.
///
/// Each successful write produces a record whose revision is exactly one
/// greater than the previously persisted revision (saturating at
/// `u64::MAX`). New records start at [`Revision::initial`].
#[derive(Debug, Clone, Copy, PartialEq, Eq, Ord, Hash, Default)]
pub struct Revision(pub u64);

/// How two revision numbers compare: by their numbers.
pub open spec fn compare_numbers(a: u64, b: u64) -> Option<Ordering> {
    if a < b {
        Some(Ordering::Less)
    } else if a == b {
        Some(Ordering::Equal)
    } else {
        Some(Ordering::Greater)
    }
}

/// Revisions are ordered by their numbers.
impl PartialOrd for Revision {
    fn partial_cmp(&self, other: &Self) -> (r: Option<Ordering>) {
        if self.0 < other.0 {
            Some(Ordering::Less)
        } else if self.0 == other.0 {
            Some(Ordering::Equal)
        } else {
            Some(Ordering::Greater)
        }
    }
}

impl vstd::std_specs::cmp::PartialOrdSpecImpl for Revision {
    open spec fn obeys_partial_cmp_spec() -> bool {
        true
    }

    open spec fn partial_cmp_spec(&self, other: &Self) -> Option<Ordering> {
        compare_numbers(self.0, other.0)
    }
}

/// Revisions compare as their numbers do: `a < b` exactly when
/// `a.get() < b.get()`, and likewise for equality and `>`.
pub proof fn law_revision_order(a: Revision, b: Revision)
    ensures
        (a.partial_cmp_spec(&b) == Some(Ordering::Less)) <==> a.0 < b.0,
        (a.partial_cmp_spec(&b) == Some(Ordering::Equal)) <==> a.0 == b.0,
        (a.partial_cmp_spec(&b) == Some(Ordering::Greater)) <==> a.0 > b.0,
{
}

impl Revision {
    /// Initial revision for a freshly created record: 1.
    pub open spec fn spec_initial() -> Revision {
        Revision(1)
    }

    /// Initial revision for a freshly created record: 1.
    #[verifier::when_used_as_spec(spec_initial)]
    pub fn initial() -> (r: Revision)
        ensures
            r == Revision(1),
    {
        Revision(1)
    }

    /// The next revision: one more, saturating at `u64::MAX`.
    pub fn next(self) -> (r: Revision)
        ensures
            r.0 == next_value(self.0),
    {
        Revision(self.0.saturating_add(1))
    }

    /// The raw number.
    pub fn get(self) -> (r: u64)
        ensures
            r == self.0,
    {
        self.0
    }

    /// The rendering `rev<number>`.
    pub fn to_text(self) -> (s: String)
        ensures
            s@ == "rev"@ + crate::text::decimal(self.0 as nat),
    {
        let mut out = crate::text::chars_of("rev");
        let digits = crate::text::decimal_u64(self.0);
        crate::text::push_chars(&mut out, digits.as_slice());
        crate::text::string_of(out.as_slice())
    }
}

/// The revision that follows `previous`: the next value (saturating), or
/// the initial revision when there is none.
pub open spec fn next_revision_spec(previous: Option<Revision>) -> Revision {
    match previous {
        Some(p) => Revision(next_value(p.0)),
        None => Revision::spec_initial(),
    }
}

/// A record's next revision: one more than the previous one, or
/// [`Revision::initial`] when there is none.
pub fn next_revision(previous: Option<Revision>) -> (r: Revision)
    ensures
        r == next_revision_spec(previous),
        match previous {
            Some(p) => r.0 == next_value(p.0),
            None => r == Revision::initial(),
        },
{
    match previous {
        Some(p) => p.next(),
        None => Revision::initial(),
    }
}

/// The number after `n`: one more, saturating at `u64::MAX`.
pub open spec fn next_value(n: u64) -> u64 {
    if n == u64::MAX {
        n
    } else {
        (n + 1) as u64
    }
}

/// The revisions a record passes through increase strictly until they
/// reach `u64::MAX` and then stay there, and taking the next revision keeps
/// the numeric order of revisions.
pub proof fn law_next_is_monotone(a: u64, b: u64)
    ensures
        a < u64::MAX ==> next_value(a) == a + 1,
        next_value(u64::MAX) == u64::MAX,
        a <= b ==> next_value(a) <= next_value(b),
        next_value(a) >= a,
{
}

} // verus!
