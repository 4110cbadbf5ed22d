use mobile_sentinel::features::state_store::revision::{next_revision, Revision};
use mobile_sentinel::features::state_store::{StateStore, Stateful};
use mobile_sentinel::types::StateId;

#[test]
fn initial_is_one() {
    assert_eq!(Revision::initial(), Revision(1));
}

#[test]
fn next_increments_by_one() {
    assert_eq!(Revision(0).next(), Revision(1));
    assert_eq!(Revision(1).next(), Revision(2));
    assert_eq!(Revision(42).next(), Revision(43));
}

#[test]
fn next_saturates_at_max() {
    assert_eq!(Revision(u64::MAX).next(), Revision(u64::MAX));
}

#[test]
fn ordering_is_numeric() {
    assert!(Revision(1) < Revision(2));
    assert!(Revision(100) > Revision(99));
}

// --- further cases ---

#[test]
fn revision_renders_with_prefix() {
    assert_eq!(Revision(7).to_text(), "rev7");
    assert_eq!(Revision(1234).get(), 1234);
}

#[test]
fn a_write_bumps_the_stored_revision() {
    assert_eq!(next_revision(None), Revision(1));
    assert_eq!(next_revision(Some(Revision(4))), Revision(5));
    assert_eq!(StateStore::write_revision(Some(Revision(u64::MAX))), Revision(u64::MAX));
}

#[test]
fn record_files_are_json_but_not_temporaries() {
    let store = StateStore::new("/s".to_string());
    assert_eq!(store.root(), "/s");
    let id = StateId("alarm-1".into());
    assert_eq!(store.record_path(&id), "/s/alarm-1.json");
    assert_eq!(store.temp_path(&id), "/s/alarm-1.json.tmp");
    assert!(StateStore::is_record_file("a.json"));
    assert!(!StateStore::is_record_file("a.json.tmp"));
    assert!(!StateStore::is_record_file("a.txt"));
}

struct Note {
    id: StateId,
    rev: Revision,
    text: String,
}

impl Stateful for Note {
    fn instance_id(&self) -> &StateId {
        &self.id
    }

    fn revision(&self) -> Revision {
        self.rev
    }

    fn with_revision(self, revision: Revision) -> Self {
        Note { rev: revision, ..self }
    }
}

#[test]
fn a_write_persists_the_revision_after_the_stored_one() {
    let note = Note { id: StateId("n1".to_string()), rev: Revision(40), text: "hi".to_string() };
    let first = StateStore::prepare_write(note, None);
    assert_eq!(first.revision(), Revision(1));
    let second = StateStore::prepare_write(first, Some(Revision(1)));
    assert_eq!(second.revision(), Revision(2));
    assert_eq!(second.instance_id(), &StateId("n1".to_string()));
    assert_eq!(second.text, "hi");
    let top = StateStore::prepare_write(second, Some(Revision(u64::MAX)));
    assert_eq!(top.revision(), Revision(u64::MAX));
}
