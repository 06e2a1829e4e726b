use untis_calendar::alias::AliasMap;
use untis_calendar::definitions::{CalendarEntry, Homework, Room, Status, Subject, Teacher, Type};
use untis_calendar::events::{Occurrence, OccurrenceStatus};
use untis_calendar::stamps::{create_timestamp, stamp_of};
use untis_calendar::synth::{
    add_timestamps, create_block_event, create_hw_events, generate_description, generate_summary,
    location, occurrence_from, or_empty, select_room, select_teacher, set_times, task_from,
    SynthesisError,
};

fn room(name: &str, status: Status) -> Room {
    Room { display_name: name.to_string(), status, ..Room::default() }
}

fn teacher(name: &str, status: &str) -> Teacher {
    Teacher { long_name: name.to_string(), status: status.to_string(), ..Teacher::default() }
}

fn maths(status: Status, rooms: Vec<Room>) -> CalendarEntry {
    CalendarEntry {
        id: 7,
        subject: Subject {
            display_name: "MA".to_string(),
            long_name: "MA".to_string(),
            ..Subject::default()
        },
        status,
        rooms,
        teachers: vec![teacher("Ada Lovelace", "REGULAR")],
        start_date_time: "2024-03-04T08:00".to_string(),
        end_date_time: "2024-03-04T08:45".to_string(),
        ..CalendarEntry::default()
    }
}

fn homework(id: i64, text: &str) -> Homework {
    Homework {
        id,
        date_time: "2024-03-01T10:00".to_string(),
        due_date_time: "2024-03-08T00:00".to_string(),
        text: text.to_string(),
        ..Homework::default()
    }
}

#[test]
fn cancelled_entry_without_alias() {
    let entry = maths(Status::Cancelled, vec![room("R1", Status::Regular)]);
    let occurrence = create_block_event(&entry, &AliasMap::new()).unwrap();
    assert_eq!(occurrence.group, "MA");
    assert_eq!(occurrence.status, OccurrenceStatus::Cancelled);
    assert_eq!(occurrence.summary, "MA - R1");
    assert_eq!(occurrence.id, 7);
}

#[test]
fn every_other_status_is_confirmed() {
    for status in [
        Status::TakingPlace,
        Status::Moved,
        Status::Substitution,
        Status::Regular,
        Status::Default("EXAM".to_string()),
    ] {
        let entry = maths(status, vec![room("R1", Status::Regular)]);
        let occurrence = create_block_event(&entry, &AliasMap::new()).unwrap();
        assert_eq!(occurrence.status, OccurrenceStatus::Confirmed);
    }
}

#[test]
fn summary_uses_the_long_name_without_alias() {
    let mut entry = maths(Status::TakingPlace, vec![room("R1", Status::Regular)]);
    entry.subject.long_name = "Mathematik".to_string();
    assert_eq!(generate_summary(&entry, &AliasMap::new()).unwrap(), "Mathematik - R1");
}

#[test]
fn summary_uses_the_alias() {
    let mut entry = maths(Status::TakingPlace, vec![room("R1", Status::Regular)]);
    entry.subject.long_name = "Mathematik".to_string();
    let mut aliases = AliasMap::new();
    aliases.insert("MA".to_string(), "Maths".to_string());
    assert_eq!(generate_summary(&entry, &aliases).unwrap(), "Maths - R1");
}

#[test]
fn additional_period_is_marked() {
    let mut entry = maths(Status::TakingPlace, vec![room("R1", Status::Regular)]);
    entry.type_field = Type::AddiotionalPeriod;
    let summary = generate_summary(&entry, &AliasMap::new()).unwrap();
    assert_eq!(summary, "\u{2795} MA - R1");
    assert!(summary.starts_with('\u{2795}'));
}

#[test]
fn substitution_is_marked() {
    let entry = maths(Status::TakingPlace, vec![room("R1", Status::Substitution)]);
    let summary = generate_summary(&entry, &AliasMap::new()).unwrap();
    assert_eq!(summary, "\u{1F504} MA - R1");
    assert!(summary.starts_with('\u{1F504}'));
}

#[test]
fn both_marks_combine_with_the_addition_first() {
    let mut entry = maths(Status::TakingPlace, vec![room("R1", Status::Substitution)]);
    entry.type_field = Type::AddiotionalPeriod;
    assert_eq!(
        generate_summary(&entry, &AliasMap::new()).unwrap(),
        "\u{2795} \u{1F504} MA - R1"
    );
}

#[test]
fn first_room_that_was_not_removed_is_taken() {
    let rooms = vec![
        room("R0", Status::Removed),
        room("R1", Status::Substitution),
        room("R2", Status::Regular),
    ];
    assert_eq!(select_room(&rooms), Some(1));
    let entry = maths(Status::TakingPlace, rooms);
    assert_eq!(generate_summary(&entry, &AliasMap::new()).unwrap(), "\u{1F504} MA - R1");
}

#[test]
fn entry_without_room_is_dropped() {
    let entry = maths(Status::TakingPlace, vec![room("R0", Status::Removed)]);
    assert_eq!(select_room(&entry.rooms), None);
    assert_eq!(generate_summary(&entry, &AliasMap::new()), Err(SynthesisError::NoEligibleRoom));
    assert_eq!(
        create_block_event(&entry, &AliasMap::new()),
        Err(SynthesisError::NoEligibleRoom)
    );
    let none = maths(Status::TakingPlace, vec![]);
    assert_eq!(create_block_event(&none, &AliasMap::new()), Err(SynthesisError::NoEligibleRoom));
}

#[test]
fn entry_without_teacher_is_dropped() {
    let mut entry = maths(Status::TakingPlace, vec![room("R1", Status::Regular)]);
    entry.teachers = vec![teacher("Ada Lovelace", "REMOVED")];
    assert_eq!(select_teacher(&entry.teachers), None);
    assert_eq!(generate_description(&entry), Err(SynthesisError::NoEligibleTeacher));
    assert_eq!(
        create_block_event(&entry, &AliasMap::new()),
        Err(SynthesisError::NoEligibleTeacher)
    );
    entry.teachers = vec![];
    assert_eq!(
        create_block_event(&entry, &AliasMap::new()),
        Err(SynthesisError::NoEligibleTeacher)
    );
    entry.rooms = vec![];
    assert_eq!(create_block_event(&entry, &AliasMap::new()), Err(SynthesisError::NoEligibleRoom));
}

#[test]
fn first_teacher_that_was_not_removed_is_taken() {
    let mut entry = maths(Status::TakingPlace, vec![room("R1", Status::Regular)]);
    entry.teachers = vec![teacher("Ada Lovelace", "REMOVED"), teacher("Emmy Noether", "REGULAR")];
    assert_eq!(select_teacher(&entry.teachers), Some(1));
    assert_eq!(generate_description(&entry).unwrap(), "MA Emmy Noether \\n");
}

#[test]
fn description_escapes_breaks() {
    let mut entry = maths(Status::TakingPlace, vec![room("R1", Status::Regular)]);
    entry.teaching_content = Some("one\ntwo".to_string());
    assert_eq!(generate_description(&entry).unwrap(), "MA Ada Lovelace \\none\\ntwo");
}

#[test]
fn location_default_and_override() {
    let entry = maths(Status::TakingPlace, vec![room("R1", Status::Regular)]);
    assert_eq!(
        location(&entry, &AliasMap::new()),
        "Am Marktplatz 18, 28832 Achim, Deutschland"
    );
    let mut aliases = AliasMap::new();
    aliases.insert("lMA".to_string(), "Sporthalle".to_string());
    assert_eq!(location(&entry, &aliases), "Sporthalle");
}

#[test]
fn occurrence_from_keeps_the_given_times() {
    let entry = maths(Status::Cancelled, vec![room("R1", Status::Regular)]);
    let occurrence = occurrence_from(
        &entry,
        &AliasMap::new(),
        "20240301T100000Z".to_string(),
        "20240304T070000Z".to_string(),
        "20240304T074500Z".to_string(),
    )
    .unwrap();
    assert_eq!(
        occurrence,
        Occurrence {
            group: "MA".to_string(),
            id: 7,
            stamp: "20240301T100000Z".to_string(),
            start: "20240304T070000Z".to_string(),
            end: "20240304T074500Z".to_string(),
            summary: "MA - R1".to_string(),
            description: "MA Ada Lovelace \\n".to_string(),
            location: "Am Marktplatz 18, 28832 Achim, Deutschland".to_string(),
            status: OccurrenceStatus::Cancelled,
        }
    );
}

#[test]
fn add_timestamps_changes_the_times_only() {
    let entry = maths(Status::TakingPlace, vec![room("R1", Status::Regular)]);
    let mut occurrence = occurrence_from(
        &entry,
        &AliasMap::new(),
        "stamp".to_string(),
        String::new(),
        String::new(),
    )
    .unwrap();
    add_timestamps(&mut occurrence, &entry);
    assert_eq!(Some(occurrence.start.clone()), create_timestamp("2024-03-04T08:00"));
    assert_eq!(Some(occurrence.end.clone()), create_timestamp("2024-03-04T08:45"));
    assert_eq!(occurrence.stamp, "stamp");
    assert_eq!(occurrence.summary, "MA - R1");
}

#[test]
fn unreadable_times_become_empty() {
    let mut entry = maths(Status::TakingPlace, vec![room("R1", Status::Regular)]);
    entry.start_date_time = "soon".to_string();
    entry.end_date_time = String::new();
    let occurrence = create_block_event(&entry, &AliasMap::new()).unwrap();
    assert_eq!(occurrence.start, "");
    assert_eq!(occurrence.end, "");
}

#[test]
fn timestamp_has_the_basic_form() {
    let stamp = create_timestamp("2024-03-04T08:00").unwrap();
    assert_eq!(stamp.len(), 16);
    assert!(stamp.ends_with("00Z"));
    assert_eq!(&stamp[8..9], "T");
    assert_ne!(stamp, "2024-03-04T08:00");
    assert_eq!(create_timestamp("2024-03-04T08:00:00Z"), create_timestamp("2024-03-04T08:00"));
    assert_eq!(create_timestamp("yesterday"), None);
    assert_eq!(create_timestamp(""), None);
}

#[test]
fn homework_task() {
    let task = task_from("MA", &homework(42, "read\nchapter 3"), "20240301T100000Z".to_string());
    assert_eq!(task.group, "MA");
    assert_eq!(task.due, "20240308");
    assert_eq!(task.summary, "\u{1F3E0} MA");
    assert_eq!(task.description, "read\\nchapter 3");
    assert_eq!(task.id, 42);
    assert_eq!(task.stamp, "20240301T100000Z");
}

#[test]
fn due_day_without_a_time() {
    let mut item = homework(1, "x");
    item.due_date_time = "2024-12-24".to_string();
    assert_eq!(task_from("MA", &item, String::new()).due, "20241224");
    item.due_date_time = String::new();
    assert_eq!(task_from("MA", &item, String::new()).due, "");
}

#[test]
fn entry_without_homework_gives_no_task() {
    let entry = maths(Status::TakingPlace, vec![room("R1", Status::Regular)]);
    assert_eq!(create_hw_events(&entry), None);
}

#[test]
fn one_task_for_each_homework_item() {
    let mut entry = maths(Status::TakingPlace, vec![room("R1", Status::Regular)]);
    entry.homeworks = vec![homework(42, "a"), homework(43, "b")];
    let (subject, tasks) = create_hw_events(&entry).unwrap();
    assert_eq!(subject, "MA");
    assert_eq!(tasks.len(), 2);
    assert_eq!(tasks[0].id, 42);
    assert_eq!(tasks[1].id, 43);
    assert_eq!(tasks[1].description, "b");
    assert_eq!(Some(tasks[0].stamp.clone()), create_timestamp("2024-03-01T10:00"));
}

#[test]
fn found_text_or_the_empty_text() {
    assert_eq!(or_empty(Some("20240304T070000Z".to_string())), "20240304T070000Z");
    assert_eq!(or_empty(Some(String::new())), "");
    assert_eq!(or_empty(None), "");
}

#[test]
fn set_times_takes_what_was_found() {
    let entry = maths(Status::TakingPlace, vec![room("R1", Status::Regular)]);
    let mut occurrence = occurrence_from(
        &entry,
        &AliasMap::new(),
        "stamp".to_string(),
        "old start".to_string(),
        "old end".to_string(),
    )
    .unwrap();
    set_times(&mut occurrence, Some("20240304T070000Z".to_string()), None);
    assert_eq!(occurrence.start, "20240304T070000Z");
    assert_eq!(occurrence.end, "");
    assert_eq!(occurrence.stamp, "stamp");
    assert_eq!(occurrence.summary, "MA - R1");
    assert_eq!(occurrence.id, 7);
    set_times(&mut occurrence, None, Some("20240304T074500Z".to_string()));
    assert_eq!(occurrence.start, "");
    assert_eq!(occurrence.end, "20240304T074500Z");
}

#[test]
fn add_timestamps_replaces_earlier_times() {
    let mut entry = maths(Status::TakingPlace, vec![room("R1", Status::Regular)]);
    entry.end_date_time = "never".to_string();
    let mut occurrence = occurrence_from(
        &entry,
        &AliasMap::new(),
        "stamp".to_string(),
        "old start".to_string(),
        "old end".to_string(),
    )
    .unwrap();
    add_timestamps(&mut occurrence, &entry);
    assert_eq!(occurrence.start.len(), 16);
    assert!(occurrence.start.ends_with('Z'));
    assert_eq!(&occurrence.start[8..9], "T");
    assert_eq!(occurrence.end, "");
}

#[test]
fn stamps_of_far_years_keep_their_form() {
    for text in ["0001-01-02T03:04", "9999-12-30T23:59", "+12345-06-07T08:09", "-0044-03-15T12:00"] {
        if let Some(stamp) = create_timestamp(text) {
            let chars: Vec<char> = stamp.chars().collect();
            assert!(chars.len() >= 16);
            assert_eq!(chars[chars.len() - 1], 'Z');
            assert_eq!(chars[chars.len() - 8], 'T');
        }
    }
}

fn by_chrono(stamp: &str) -> Option<String> {
    let time = chrono::NaiveDateTime::parse_and_remainder(stamp, "%Y-%m-%dT%H:%M")
        .map(|el| el.0)
        .ok()?
        .and_local_timezone(chrono::Local)
        .earliest()?
        .to_utc();
    Some(time.format("%Y%m%dT%H%M%SZ").to_string())
}

#[test]
fn timestamps_as_the_chain_of_chrono_gives_them() {
    for text in [
        "2024-03-04T08:00",
        "2024-03-31T02:30",
        "2024-10-27T02:30",
        "2024-12-31T23:59:59.000Z",
        "1969-12-31T23:59",
        "0001-01-01T00:00",
        "2024-02-30T08:00",
        "2024-03-04 08:00",
        "2024-03-04T24:00",
        "24-3-4T8:5",
        " 2024-03-04T08:00",
        "",
    ] {
        assert_eq!(create_timestamp(text), by_chrono(text));
    }
}

#[test]
fn stamp_of_a_given_moment() {
    assert_eq!(stamp_of(738_949, 8 * 3600), Some("20240304T080000Z".to_string()));
    assert_eq!(stamp_of(738_949, 86_399), Some("20240304T235959Z".to_string()));
    assert_eq!(stamp_of(1, 0), Some("00010101T000000Z".to_string()));
    assert_eq!(stamp_of(0, 0), Some("00001231T000000Z".to_string()));
    assert_eq!(stamp_of(738_949, 86_400), None);
    assert_eq!(stamp_of(i32::MAX, 0), None);
    assert_eq!(stamp_of(95_745_399, 86_399), Some("+2621421231T235959Z".to_string()));
    assert_eq!(stamp_of(-95_746_129, 0), Some("-2621430101T000000Z".to_string()));
    assert_eq!(stamp_of(95_745_400, 0), None);
    assert_eq!(stamp_of(-95_746_130, 86_399), None);
    for day in [-95_746_129, -400_000, -1, 0, 1, 719_162, 738_949, 3_652_059, 95_745_399] {
        for second in [0, 1, 59, 3_600, 43_200, 86_399] {
            assert!(stamp_of(day, second).is_some());
        }
        assert_eq!(stamp_of(day, 86_400), None);
        assert_eq!(stamp_of(day, u32::MAX), None);
    }
}

#[test]
fn occurrence_is_stamped_with_the_present_moment() {
    let entry = maths(Status::TakingPlace, vec![room("R1", Status::Regular)]);
    let occurrence = create_block_event(&entry, &AliasMap::new()).unwrap();
    let now = chrono::Local::now().format("%Y%m%d").to_string();
    assert_eq!(occurrence.stamp.len(), 16);
    assert!(occurrence.stamp.ends_with('Z'));
    assert_eq!(&occurrence.stamp[8..9], "T");
    assert!(occurrence.stamp[..8] == now || occurrence.stamp[..8] < *now.as_str());
}
