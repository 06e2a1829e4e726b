use untis_calendar::events::{Occurrence, OccurrenceStatus};
use untis_calendar::snapshot::Snapshot;
use untis_calendar::store::Svc;

fn occurrence(id: i64) -> Occurrence {
    Occurrence {
        group: "MA".to_string(),
        id,
        stamp: String::new(),
        start: String::new(),
        end: String::new(),
        summary: "MA - R1".to_string(),
        description: String::new(),
        location: String::new(),
        status: OccurrenceStatus::Confirmed,
    }
}

#[test]
fn a_key_is_started_once() {
    let mut store = Svc::new();
    assert!(store.peek(-1908).is_none());
    let (_, started) = store.get(-1908);
    assert!(started);
    let (_, again) = store.get(-1908);
    assert!(!again);
    assert!(store.peek(-1908).is_some());
    assert!(store.peek(1908).is_none());
    let (_, other) = store.get(1908);
    assert!(other);
    let (_, first) = store.get(-1908);
    assert!(!first);
}

#[test]
fn a_new_key_has_an_empty_snapshot() {
    let mut store = Svc::new();
    let (mut handle, _) = store.get(7);
    assert_eq!(*handle.get(), Snapshot::new());
    assert!(handle.get().is_empty());
}

#[test]
fn handles_of_a_key_see_what_is_published() {
    let mut store = Svc::new();
    let (mut writer, _) = store.get(7);
    let (mut reader, _) = store.get(7);
    let mut late = store.peek(7).unwrap();
    let (mut other, _) = store.get(8);
    let mut snapshot = Snapshot::new();
    snapshot.add_occurrence(occurrence(1));
    writer.update(snapshot);
    assert_eq!(reader.get().occurrences_of("MA").unwrap().len(), 1);
    assert_eq!(late.get().occurrences_of("MA").unwrap()[0].id, 1);
    assert!(other.get().is_empty());
    let mut after = store.peek(7).unwrap();
    assert!(!after.get().is_empty());
}
