//! A durable per-id record store: one JSON file per record under a root
//! directory, written atomically (temp file, then rename), with a revision
//! the store manages.
//!
//! What is decided here is where the records live, which files are
//! records, and which revision a write gives; the files themselves are read
//! and written by the embedding application.
use vstd::prelude::*;

pub mod revision;

pub use revision::Revision;
use crate::build::config::path_join;
use crate::text::{chars_of, ends_with, ends_with_exec, push_str_chars, string_of};
use crate::types::StateId;

verus! {

/// A record that can live in a [`StateStore`]: it carries its own id and a
/// revision the store manages. Consumers implement this for their own
/// record type.
pub trait Stateful: Sized {
    /// The id this record belongs to (its file key).
    fn instance_id(&self) -> &StateId;

    /// The record's current revision.
    fn revision(&self) -> Revision;

    /// The record with its revision replaced. Called by the store on every
    /// write to enforce the monotonic-revision invariant.
    fn with_revision(self, revision: Revision) -> Self;
}

/// A store of records under a root directory.
pub struct StateStore {
    root: String,
}

/// `<id>.json`.
pub open spec fn record_file_name(id: Seq<char>) -> Seq<char> {
    id + ".json"@
}

/// `<id>.json.tmp`.
pub open spec fn temp_file_name(id: Seq<char>) -> Seq<char> {
    id + ".json.tmp"@
}

/// A directory entry named `name` is a record: it ends with `.json` and is
/// not a temporary file.
pub open spec fn is_record_name(name: Seq<char>) -> bool {
    ends_with(name, ".json"@) && !ends_with(name, ".json.tmp"@)
}

impl StateStore {
    /// The store's directory.
    pub closed spec fn root_path(&self) -> Seq<char> {
        self.root@
    }

    /// A store rooted at `root`. The directory is created on first write.
    pub fn new(root: String) -> (r: Self)
        ensures
            r.root_path() == root@,
    {
        StateStore { root }
    }

    /// The directory this store writes into.
    pub fn root(&self) -> (r: &str)
        ensures
            r@ == self.root_path(),
    {
        self.root.as_str()
    }

    /// The file that holds the record `id`: `<root>/<id>.json`.
    pub fn record_path(&self, id: &StateId) -> (r: String)
        ensures
            r@ == path_join(self.root_path(), record_file_name(id.0@)),
    {
        let mut name = chars_of(id.0.as_str());
        push_str_chars(&mut name, ".json");
        let n = string_of(name.as_slice());
        crate::build::config::join_path(self.root.as_str(), n.as_str())
    }

    /// The file a write goes through before it is renamed into place:
    /// `<root>/<id>.json.tmp`.
    pub fn temp_path(&self, id: &StateId) -> (r: String)
        ensures
            r@ == path_join(self.root_path(), temp_file_name(id.0@)),
    {
        let mut name = chars_of(id.0.as_str());
        push_str_chars(&mut name, ".json.tmp");
        let n = string_of(name.as_slice());
        crate::build::config::join_path(self.root.as_str(), n.as_str())
    }

    /// Whether the directory entry `file_name` holds a record.
    pub fn is_record_file(file_name: &str) -> (r: bool)
        ensures
            r == is_record_name(file_name@),
    {
        let n = chars_of(file_name);
        let json = chars_of(".json");
        let tmp = chars_of(".json.tmp");
        ends_with_exec(n.as_slice(), json.as_slice()) && !ends_with_exec(
            n.as_slice(),
            tmp.as_slice(),
        )
    }

    /// The revision a write persists: one more than the stored record's
    /// (saturating), or [`Revision::initial`] when none is stored — whatever
    /// revision the caller passed.
    pub fn write_revision(stored: Option<Revision>) -> (r: Revision)
        ensures
            match stored {
                Some(p) => r.0 == revision::next_value(p.0),
                None => r == Revision::initial(),
            },
    {
        revision::next_revision(stored)
    }

    /// The record as a write persists it: [`Stateful::with_revision`]
    /// applied to the record and the revision [`StateStore::write_revision`]
    /// gives (the `ensures` says the result is what that call returns; the
    /// trait is implemented by users and promises nothing of its own).
    pub fn prepare_write<T: Stateful>(record: T, stored: Option<Revision>) -> (r: T)
        ensures
            call_ensures(T::with_revision, (record, revision::next_revision_spec(stored)), r),
    {
        let rev = Self::write_revision(stored);
        record.with_revision(rev)
    }
}

} // verus!
