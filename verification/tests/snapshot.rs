use untis_calendar::alias::AliasMap;
use untis_calendar::cycle::{collect, day_occurrences, day_tasks, fetch, fetch_for_day, merge_days};
use untis_calendar::definitions::{CalendarEntry, Homework, Room, Root, Status, Subject, Teacher};
use untis_calendar::events::{Occurrence, OccurrenceStatus, Task};
use untis_calendar::snapshot::Snapshot;

fn occurrence(group: &str, id: i64) -> Occurrence {
    Occurrence {
        group: group.to_string(),
        id,
        stamp: "20240301T100000Z".to_string(),
        start: "20240304T070000Z".to_string(),
        end: "20240304T074500Z".to_string(),
        summary: format!("{group} - R1"),
        description: String::new(),
        location: String::new(),
        status: OccurrenceStatus::Confirmed,
    }
}

fn task(group: &str, id: i64, text: &str) -> Task {
    Task {
        group: group.to_string(),
        id,
        stamp: "20240301T100000Z".to_string(),
        due: "20240308".to_string(),
        summary: format!("\u{1F3E0} {group}"),
        description: text.to_string(),
    }
}

fn entry(id: i64, subject: &str, homeworks: Vec<Homework>) -> CalendarEntry {
    CalendarEntry {
        id,
        subject: Subject {
            display_name: subject.to_string(),
            long_name: subject.to_string(),
            ..Subject::default()
        },
        rooms: vec![Room {
            display_name: "R1".to_string(),
            status: Status::Regular,
            ..Room::default()
        }],
        teachers: vec![Teacher {
            long_name: "Ada Lovelace".to_string(),
            status: "REGULAR".to_string(),
            ..Teacher::default()
        }],
        start_date_time: "2024-03-04T08:00".to_string(),
        end_date_time: "2024-03-04T08:45".to_string(),
        homeworks,
        ..CalendarEntry::default()
    }
}

fn homework(id: i64, text: &str) -> Homework {
    Homework {
        id,
        date_time: "2024-03-01T10:00".to_string(),
        due_date_time: "2024-03-08T00:00".to_string(),
        text: text.to_string(),
        ..Homework::default()
    }
}

fn day(first_id: i64) -> Snapshot {
    let mut day = Snapshot::new();
    day.add_occurrence(occurrence("MA", first_id));
    day.add_occurrence(occurrence("DE", first_id + 1));
    day.add_task(task("MA", 42, "read"));
    day.add_task(task("DE", 43, "write"));
    day
}

fn ids(snapshot: &Snapshot, group: &str) -> Vec<i64> {
    snapshot.occurrences_of(group).map(|v| v.iter().map(|o| o.id).collect()).unwrap_or_default()
}

#[test]
fn new_snapshot_is_empty() {
    let snapshot = Snapshot::new();
    assert!(snapshot.is_empty());
    assert_eq!(snapshot.group_names(), Vec::<String>::new());
    assert_eq!(snapshot.occurrences_of("MA"), None);
    assert_eq!(snapshot.tasks_of("MA"), None);
    assert_eq!(snapshot.task_count("MA"), 0);
    assert_eq!(snapshot.listing(), "");
    assert_eq!(Snapshot::default(), Snapshot::new());
}

#[test]
fn occurrences_keep_their_order_within_a_group() {
    let mut snapshot = Snapshot::new();
    snapshot.add_occurrence(occurrence("MA", 1));
    snapshot.add_occurrence(occurrence("DE", 2));
    snapshot.add_occurrence(occurrence("MA", 3));
    assert_eq!(ids(&snapshot, "MA"), vec![1, 3]);
    assert_eq!(ids(&snapshot, "DE"), vec![2]);
    assert_eq!(snapshot.group_names(), vec!["MA".to_string(), "DE".to_string()]);
    assert_eq!(snapshot.listing(), "MA\nDE");
    assert!(!snapshot.is_empty());
}

#[test]
fn the_same_task_is_held_once() {
    let mut snapshot = Snapshot::new();
    snapshot.add_task(task("MA", 42, "read"));
    snapshot.add_task(task("MA", 42, "read"));
    assert_eq!(snapshot.task_count("MA"), 1);
    snapshot.add_task(task("MA", 42, "read more"));
    assert_eq!(snapshot.task_count("MA"), 2);
    snapshot.add_task(task("DE", 42, "read"));
    assert_eq!(snapshot.task_count("MA"), 2);
    assert_eq!(snapshot.task_count("DE"), 1);
    assert!(snapshot.is_empty());
}

#[test]
fn merge_concatenates_occurrences_and_unites_tasks() {
    let merged = day(1).merge(day(11));
    assert_eq!(ids(&merged, "MA"), vec![1, 11]);
    assert_eq!(ids(&merged, "DE"), vec![2, 12]);
    assert_eq!(merged.task_count("MA"), 1);
    assert_eq!(merged.task_count("DE"), 1);
    assert_eq!(merged.tasks_of("MA").unwrap()[0].id, 42);
}

#[test]
fn merge_brings_new_groups() {
    let mut other = Snapshot::new();
    other.add_occurrence(occurrence("EN", 5));
    other.add_task(task("EN", 44, "learn"));
    let merged = day(1).merge(other);
    assert_eq!(ids(&merged, "EN"), vec![5]);
    assert_eq!(ids(&merged, "MA"), vec![1]);
    assert_eq!(merged.task_count("EN"), 1);
    assert_eq!(merged.group_names().len(), 3);
}

#[test]
fn remerging_a_day_keeps_the_task_counts() {
    let once = Snapshot::new().merge(day(1));
    let counts = (once.task_count("MA"), once.task_count("DE"), once.task_count("EN"));
    let twice = once.merge(day(1));
    assert_eq!((twice.task_count("MA"), twice.task_count("DE"), twice.task_count("EN")), counts);
    let thrice = twice.merge(day(1));
    assert_eq!((thrice.task_count("MA"), thrice.task_count("DE"), thrice.task_count("EN")), counts);
    assert_eq!(counts, (1, 1, 0));
}

#[test]
fn teachers_are_indexed_once() {
    let mut snapshot = Snapshot::new();
    snapshot.index_teacher("Lovelace".to_string(), "MA".to_string());
    snapshot.index_teacher("Lovelace".to_string(), "IF".to_string());
    snapshot.index_teacher("Lovelace".to_string(), "MA".to_string());
    snapshot.index_teacher("Noether".to_string(), "MA".to_string());
    assert_eq!(snapshot.groups_of_teacher("Lovelace"), vec!["MA".to_string(), "IF".to_string()]);
    assert_eq!(snapshot.groups_of_teacher("Noether"), vec!["MA".to_string()]);
    assert_eq!(snapshot.groups_of_teacher("Nobody"), Vec::<String>::new());
    let mut other = Snapshot::new();
    other.index_teacher("Lovelace".to_string(), "IF".to_string());
    other.index_teacher("Lovelace".to_string(), "PH".to_string());
    let merged = snapshot.merge(other);
    assert_eq!(
        merged.groups_of_teacher("Lovelace"),
        vec!["MA".to_string(), "IF".to_string(), "PH".to_string()]
    );
}

#[test]
fn collect_groups_what_it_is_given() {
    let snapshot = collect(
        vec![occurrence("MA", 1), occurrence("DE", 2), occurrence("MA", 3)],
        vec![task("MA", 42, "read"), task("MA", 42, "read"), task("DE", 43, "write")],
    );
    assert_eq!(ids(&snapshot, "MA"), vec![1, 3]);
    assert_eq!(snapshot.task_count("MA"), 1);
    assert_eq!(snapshot.task_count("DE"), 1);
}

#[test]
fn a_day_drops_only_the_entry_without_room() {
    let mut broken = entry(2, "DE", vec![]);
    broken.rooms[0].status = Status::Removed;
    let entries = vec![entry(1, "MA", vec![]), broken, entry(3, "MA", vec![homework(42, "x")])];
    let found = day_occurrences(&entries, &AliasMap::new());
    assert_eq!(found.iter().map(|o| o.id).collect::<Vec<_>>(), vec![1, 3]);
    let tasks = day_tasks(&entries);
    assert_eq!(tasks.len(), 1);
    assert_eq!(tasks[0].id, 42);
    assert_eq!(tasks[0].group, "MA");
}

#[test]
fn entries_without_homework_give_no_task() {
    let entries = vec![entry(1, "MA", vec![]), entry(2, "DE", vec![])];
    assert_eq!(day_tasks(&entries), Vec::<Task>::new());
    let day = fetch_for_day(&Some(Root { calendar_entries: entries }), &AliasMap::new());
    assert_eq!(day.task_count("MA"), 0);
    assert_eq!(day.task_count("DE"), 0);
    assert_eq!(day.tasks_of("MA"), None);
}

#[test]
fn a_failed_day_contributes_nothing() {
    let day = fetch_for_day(&None, &AliasMap::new());
    assert!(day.is_empty());
    assert_eq!(day, Snapshot::new());
    let empty = fetch_for_day(&Some(Root::default()), &AliasMap::new());
    assert_eq!(empty, Snapshot::new());
}

#[test]
fn overlapping_windows_give_one_task() {
    let first = Root { calendar_entries: vec![entry(1, "MA", vec![homework(42, "read")])] };
    let second = Root { calendar_entries: vec![entry(2, "MA", vec![homework(42, "read")])] };
    let snapshot = fetch(&vec![Some(first), None, Some(second)], &AliasMap::new());
    assert_eq!(snapshot.task_count("MA"), 1);
    let tasks = snapshot.tasks_of("MA").unwrap();
    assert_eq!(tasks.len(), 1);
    assert_eq!(tasks[0].id, 42);
    assert_eq!(ids(&snapshot, "MA"), vec![1, 2]);
}

#[test]
fn changed_homework_text_gives_a_second_task() {
    let first = Root { calendar_entries: vec![entry(1, "MA", vec![homework(42, "read")])] };
    let second = Root { calendar_entries: vec![entry(2, "MA", vec![homework(42, "read on")])] };
    let snapshot = fetch(&vec![Some(first), Some(second)], &AliasMap::new());
    assert_eq!(snapshot.task_count("MA"), 2);
}

#[test]
fn days_are_merged_in_their_order() {
    let merged = merge_days(vec![day(1), day(11), day(21)]);
    assert_eq!(ids(&merged, "MA"), vec![1, 11, 21]);
    assert_eq!(merged.task_count("MA"), 1);
    assert_eq!(merge_days(vec![]), Snapshot::new());
    assert!(fetch(&vec![None, None], &AliasMap::new()).is_empty());
}

#[test]
fn homework_of_overlapping_answers_is_held_once() {
    let first = Root { calendar_entries: vec![entry(1, "MA", vec![homework(42, "read")])] };
    let second = Root {
        calendar_entries: vec![
            entry(2, "DE", vec![homework(44, "learn")]),
            entry(3, "MA", vec![homework(42, "read"), homework(43, "write")]),
        ],
    };
    let found = untis_calendar::cycle::fetch_homework(&vec![first, Root::default(), second]);
    let maths: Vec<i64> = found.tasks_of("MA").unwrap().iter().map(|t| t.id).collect();
    assert_eq!(maths, vec![42, 43]);
    assert_eq!(found.task_count("MA"), 2);
    assert_eq!(found.task_count("DE"), 1);
    assert_eq!(found.tasks_of("MA").unwrap().iter().filter(|t| t.id == 42).count(), 1);
    assert!(found.is_empty());
    assert_eq!(found.group_names(), Vec::<String>::new());
    assert_eq!(untis_calendar::cycle::fetch_homework(&vec![]), Snapshot::new());
}
