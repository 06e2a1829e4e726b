//! Turns one provider entry into its occurrence and its tasks.

use crate::alias::AliasMap;
use crate::definitions::{CalendarEntry, Homework, Room, Teacher};
use crate::events::{Occurrence, OccurrenceStatus, OccurrenceView, Task, TaskView};
use crate::stamps::{create_timestamp, current_stamp, is_stamp, may_stamp};
use crate::text::{glue, replace, replace_seq, split, split_seq, starts_with_seq};
use vstd::prelude::*;
use vstd::string::*;

verus! {

/// Why an entry gives no occurrence.
#[derive(Debug, Clone, Copy, PartialEq, Eq, Structural)]
pub enum SynthesisError {
    /// Every room of the entry was removed, or it lists none.
    NoEligibleRoom,
    /// Every teacher of the entry was removed, or it lists none.
    NoEligibleTeacher,
}

/// The mark in front of a summary whose room is a substitution.
pub open spec fn substitution_mark() -> Seq<char> {
    seq!['\u{1F504}', ' ']
}

/// The mark in front of the summary of an additional period.
pub open spec fn addition_mark() -> Seq<char> {
    seq!['\u{2795}', ' ']
}

/// The mark in front of the summary of a task.
pub open spec fn homework_mark() -> Seq<char> {
    seq!['\u{1F3E0}', ' ']
}

/// The provider's word for a teacher taken off a period.
pub open spec fn removed_word() -> Seq<char> {
    seq!['R', 'E', 'M', 'O', 'V', 'E', 'D']
}

/// The location of an occurrence of a subject that has no override.
pub open spec fn default_location() -> Seq<char> {
    "Am Marktplatz 18, 28832 Achim, Deutschland"@
}

/// `i` is the first room of the list that was not removed.
pub open spec fn room_choice(rooms: Seq<Room>, i: int) -> bool {
    &&& 0 <= i < rooms.len()
    &&& !(rooms[i].status is Removed)
    &&& forall|j: int| 0 <= j < i ==> rooms[j].status is Removed
}

/// Some room of the list was not removed.
pub open spec fn has_room(rooms: Seq<Room>) -> bool {
    exists|i: int| room_choice(rooms, i)
}

/// The first room of the list that was not removed, where `has_room` holds.
pub open spec fn chosen_room(rooms: Seq<Room>) -> Room {
    rooms[choose|i: int| room_choice(rooms, i)]
}

/// `i` is the first teacher of the list that was not removed.
pub open spec fn teacher_choice(teachers: Seq<Teacher>, i: int) -> bool {
    &&& 0 <= i < teachers.len()
    &&& teachers[i].status@ != removed_word()
    &&& forall|j: int| 0 <= j < i ==> teachers[j].status@ == removed_word()
}

/// Some teacher of the list was not removed.
pub open spec fn has_teacher(teachers: Seq<Teacher>) -> bool {
    exists|i: int| teacher_choice(teachers, i)
}

/// The first teacher of the list that was not removed, where `has_teacher`
/// holds.
pub open spec fn chosen_teacher(teachers: Seq<Teacher>) -> Teacher {
    teachers[choose|i: int| teacher_choice(teachers, i)]
}

/// The name under which a subject is shown: its override, or else its long
/// name.
pub open spec fn subject_name(entry: CalendarEntry, aliases: Map<Seq<char>, Seq<char>>) -> Seq<
    char,
> {
    if aliases.contains_key(entry.subject.display_name@) {
        aliases[entry.subject.display_name@]
    } else {
        entry.subject.long_name@
    }
}

/// The summary of an entry that has a room: the subject's name, the room,
/// and in front of them the marks that apply, the addition mark first.
pub open spec fn summary_text(entry: CalendarEntry, aliases: Map<Seq<char>, Seq<char>>) -> Seq<
    char,
> {
    let room = chosen_room(entry.rooms@);
    let plain = subject_name(entry, aliases) + seq![' ', '-', ' '] + room.display_name@;
    let marked = if room.status is Substitution {
        substitution_mark() + plain
    } else {
        plain
    };
    if entry.type_field is AddiotionalPeriod {
        addition_mark() + marked
    } else {
        marked
    }
}

/// A free text with each line break written as a backslash and an `n`.
pub open spec fn escaped_breaks(text: Seq<char>) -> Seq<char> {
    replace_seq(text, seq!['\n'], seq!['\\', 'n'])
}

/// What an entry says was taught, or the empty text.
pub open spec fn taught(entry: CalendarEntry) -> Seq<char> {
    match entry.teaching_content {
        Some(content) => content@,
        None => Seq::empty(),
    }
}

/// The description of an entry that has a teacher.
pub open spec fn description_text(entry: CalendarEntry) -> Seq<char> {
    entry.subject.display_name@ + seq![' '] + chosen_teacher(entry.teachers@).long_name@ + seq![
        ' ',
        '\\',
        'n',
    ] + escaped_breaks(taught(entry))
}

/// The location of an entry: the override under `l` and the subject's
/// display name, or else the default.
pub open spec fn location_text(entry: CalendarEntry, aliases: Map<Seq<char>, Seq<char>>) -> Seq<
    char,
> {
    let key = seq!['l'] + entry.subject.display_name@;
    if aliases.contains_key(key) {
        aliases[key]
    } else {
        default_location()
    }
}

/// The status of the occurrence of an entry.
pub open spec fn status_of(entry: CalendarEntry) -> OccurrenceStatus {
    if entry.status is Cancelled {
        OccurrenceStatus::Cancelled
    } else {
        OccurrenceStatus::Confirmed
    }
}

/// An entry gives an occurrence when it has a room and a teacher left.
pub open spec fn gives_occurrence(entry: CalendarEntry) -> bool {
    has_room(entry.rooms@) && has_teacher(entry.teachers@)
}

/// The occurrence of an entry, for the three time stamps given.
pub open spec fn occurrence_of(
    entry: CalendarEntry,
    aliases: Map<Seq<char>, Seq<char>>,
    stamp: Seq<char>,
    start: Seq<char>,
    end: Seq<char>,
) -> OccurrenceView {
    OccurrenceView {
        group: entry.subject.display_name@,
        id: entry.id as int,
        stamp,
        start,
        end,
        summary: summary_text(entry, aliases),
        description: description_text(entry),
        location: location_text(entry, aliases),
        status: status_of(entry),
    }
}

/// The due day of a homework item: what stands before the `T` of its due
/// time, without the hyphens.
pub open spec fn due_day(due_date_time: Seq<char>) -> Seq<char> {
    replace_seq(split_seq(due_date_time, seq!['T'])[0], seq!['-'], Seq::empty())
}

/// The task of a homework item of a subject, for the time stamp given.
pub open spec fn task_of(subject: Seq<char>, homework: Homework, stamp: Seq<char>) -> TaskView {
    TaskView {
        group: subject,
        id: homework.id as int,
        stamp,
        due: due_day(homework.due_date_time@),
        summary: homework_mark() + subject,
        description: escaped_breaks(homework.text@),
    }
}

/// The rooms of a list that come before the first one not removed are all
/// removed, so the choice is one room only.
pub proof fn lemma_room_choice(rooms: Seq<Room>, i: int)
    requires
        room_choice(rooms, i),
    ensures
        has_room(rooms),
        chosen_room(rooms) == rooms[i],
{
    let k = choose|k: int| room_choice(rooms, k);
    assert(k == i);
}

/// The choice of a teacher is one teacher only.
pub proof fn lemma_teacher_choice(teachers: Seq<Teacher>, i: int)
    requires
        teacher_choice(teachers, i),
    ensures
        has_teacher(teachers),
        chosen_teacher(teachers) == teachers[i],
{
    let k = choose|k: int| teacher_choice(teachers, k);
    assert(k == i);
}

/// The summary of an additional period begins with the addition mark.
pub proof fn lemma_additional_period_is_marked(
    entry: CalendarEntry,
    aliases: Map<Seq<char>, Seq<char>>,
)
    requires
        entry.type_field is AddiotionalPeriod,
    ensures
        starts_with_seq(summary_text(entry, aliases), addition_mark()),
{
    let s = summary_text(entry, aliases);
    assert(s.subrange(0, 2) =~= addition_mark());
}

/// The summary of an entry whose chosen room is a substitution begins with
/// the substitution mark, unless the period is an additional one.
pub proof fn lemma_substitution_is_marked(entry: CalendarEntry, aliases: Map<Seq<char>, Seq<char>>)
    requires
        has_room(entry.rooms@),
        chosen_room(entry.rooms@).status is Substitution,
        !(entry.type_field is AddiotionalPeriod),
    ensures
        starts_with_seq(summary_text(entry, aliases), substitution_mark()),
{
    let s = summary_text(entry, aliases);
    assert(s.subrange(0, 2) =~= substitution_mark());
}

/// The summary of an additional period whose chosen room is a substitution
/// begins with both marks, the addition mark first.
pub proof fn lemma_both_marks_combine(entry: CalendarEntry, aliases: Map<Seq<char>, Seq<char>>)
    requires
        has_room(entry.rooms@),
        chosen_room(entry.rooms@).status is Substitution,
        entry.type_field is AddiotionalPeriod,
    ensures
        starts_with_seq(summary_text(entry, aliases), addition_mark() + substitution_mark()),
{
    let s = summary_text(entry, aliases);
    assert(s.subrange(0, 4) =~= addition_mark() + substitution_mark());
}

/// The first room of the list that was not removed.
pub fn select_room(rooms: &Vec<Room>) -> (res: Option<usize>)
    ensures
        res is Some <==> has_room(rooms@),
        res matches Some(i) ==> room_choice(rooms@, i as int) && rooms@[i as int] == chosen_room(
            rooms@,
        ),
{
    let mut i: usize = 0;
    while i < rooms.len()
        invariant
            i <= rooms.len(),
            forall|j: int| 0 <= j < i ==> rooms@[j].status is Removed,
        decreases rooms.len() - i,
    {
        if !rooms[i].status.is_removed() {
            proof {
                lemma_room_choice(rooms@, i as int);
            }
            return Some(i);
        }
        i = i + 1;
    }
    None
}

/// The first teacher of the list that was not removed.
pub fn select_teacher(teachers: &Vec<Teacher>) -> (res: Option<usize>)
    ensures
        res is Some <==> has_teacher(teachers@),
        res matches Some(i) ==> teacher_choice(teachers@, i as int) && teachers@[i as int]
            == chosen_teacher(teachers@),
{
    proof {
        reveal_strlit("REMOVED");
        assert("REMOVED"@ =~= removed_word());
    }
    let removed = "REMOVED".to_owned();
    let mut i: usize = 0;
    while i < teachers.len()
        invariant
            i <= teachers.len(),
            removed@ == removed_word(),
            forall|j: int| 0 <= j < i ==> teachers@[j].status@ == removed_word(),
        decreases teachers.len() - i,
    {
        if teachers[i].status != removed {
            proof {
                lemma_teacher_choice(teachers@, i as int);
            }
            return Some(i);
        }
        i = i + 1;
    }
    None
}

/// The summary of an entry, or the reason why it has none.
pub fn generate_summary(entry: &CalendarEntry, aliases: &AliasMap) -> (res: Result<
    String,
    SynthesisError,
>)
    ensures
        res is Ok <==> has_room(entry.rooms@),
        res matches Ok(s) ==> s@ == summary_text(*entry, aliases@),
        res matches Err(e) ==> e == SynthesisError::NoEligibleRoom,
        res matches Ok(s) ==> (entry.type_field is AddiotionalPeriod ==> starts_with_seq(
            s@,
            addition_mark(),
        )),
        res matches Ok(s) ==> (chosen_room(entry.rooms@).status is Substitution && !(
        entry.type_field is AddiotionalPeriod) ==> starts_with_seq(s@, substitution_mark())),
{
    proof {
        if entry.type_field is AddiotionalPeriod {
            lemma_additional_period_is_marked(*entry, aliases@);
        } else if has_room(entry.rooms@) && chosen_room(entry.rooms@).status is Substitution {
            lemma_substitution_is_marked(*entry, aliases@);
        }
    }
    let room = match select_room(&entry.rooms) {
        Some(i) => &entry.rooms[i],
        None => { return Err(SynthesisError::NoEligibleRoom); },
    };
    let name = match aliases.resolve(entry.subject.display_name.as_str()) {
        Some(alias) => alias,
        None => entry.subject.long_name.clone(),
    };
    proof {
        reveal_strlit(" - ");
        reveal_strlit("\u{1F504} ");
        reveal_strlit("\u{2795} ");
        assert(" - "@ =~= seq![' ', '-', ' ']);
        assert("\u{1F504} "@ =~= substitution_mark());
        assert("\u{2795} "@ =~= addition_mark());
    }
    let mut sum = name;
    sum.append(" - ");
    sum.append(room.display_name.as_str());
    if matches!(room.status, crate::definitions::Status::Substitution) {
        sum = glue("\u{1F504} ", sum.as_str());
    }
    if matches!(entry.type_field, crate::definitions::Type::AddiotionalPeriod) {
        sum = glue("\u{2795} ", sum.as_str());
    }
    Ok(sum)
}

/// The description of an entry, or the reason why it has none.
pub fn generate_description(entry: &CalendarEntry) -> (res: Result<String, SynthesisError>)
    ensures
        res is Ok <==> has_teacher(entry.teachers@),
        res matches Ok(s) ==> s@ == description_text(*entry),
        res matches Err(e) ==> e == SynthesisError::NoEligibleTeacher,
{
    let teacher = match select_teacher(&entry.teachers) {
        Some(i) => &entry.teachers[i],
        None => { return Err(SynthesisError::NoEligibleTeacher); },
    };
    proof {
        reveal_strlit("");
        reveal_strlit(" ");
        reveal_strlit(" \\n");
        reveal_strlit("\n");
        reveal_strlit("\\n");
        assert(""@ =~= Seq::<char>::empty());
        assert(" "@ =~= seq![' ']);
        assert(" \\n"@ =~= seq![' ', '\\', 'n']);
        assert("\n"@ =~= seq!['\n']);
        assert("\\n"@ =~= seq!['\\', 'n']);
    }
    let content = match &entry.teaching_content {
        Some(content) => replace(content.as_str(), "\n", "\\n"),
        None => replace("", "\n", "\\n"),
    };
    let mut text = entry.subject.display_name.clone();
    text.append(" ");
    text.append(teacher.long_name.as_str());
    text.append(" \\n");
    text.append(content.as_str());
    assert(text@ =~= description_text(*entry));
    Ok(text)
}

/// The location of an entry.
pub fn location(entry: &CalendarEntry, aliases: &AliasMap) -> (place: String)
    ensures
        place@ == location_text(*entry, aliases@),
{
    proof {
        reveal_strlit("l");
        assert("l"@ =~= seq!['l']);
    }
    let key = glue("l", entry.subject.display_name.as_str());
    match aliases.resolve(key.as_str()) {
        Some(place) => place,
        None => "Am Marktplatz 18, 28832 Achim, Deutschland".to_owned(),
    }
}

/// The occurrence of an entry for the three time stamps given, or the
/// reason why the entry is dropped.
pub fn occurrence_from(
    entry: &CalendarEntry,
    aliases: &AliasMap,
    stamp: String,
    start: String,
    end: String,
) -> (res: Result<Occurrence, SynthesisError>)
    ensures
        res is Ok <==> gives_occurrence(*entry),
        res matches Ok(occurrence) ==> occurrence@ == occurrence_of(
            *entry,
            aliases@,
            stamp@,
            start@,
            end@,
        ),
        res matches Err(e) ==> e == (if has_room(entry.rooms@) {
            SynthesisError::NoEligibleTeacher
        } else {
            SynthesisError::NoEligibleRoom
        }),
{
    let summary = match generate_summary(entry, aliases) {
        Ok(summary) => summary,
        Err(e) => { return Err(e); },
    };
    let description = match generate_description(entry) {
        Ok(description) => description,
        Err(e) => { return Err(e); },
    };
    let status = match entry.status {
        crate::definitions::Status::Cancelled => OccurrenceStatus::Cancelled,
        _ => OccurrenceStatus::Confirmed,
    };
    Ok(
        Occurrence {
            group: entry.subject.display_name.clone(),
            id: entry.id,
            stamp,
            start,
            end,
            summary,
            description,
            location: location(entry, aliases),
            status,
        },
    )
}

/// Sets the start and the end of an occurrence from the times of its entry,
/// each converted by `create_timestamp`, and to the empty text where that
/// gives nothing. The other fields stay. Which times come out depends on
/// the machine's time zone: each is the stamp of some moment, and empty
/// where the entry's time does not begin with a minute.
pub fn add_timestamps(occurrence: &mut Occurrence, entry: &CalendarEntry)
    ensures
        final(occurrence)@ == (OccurrenceView {
            start: final(occurrence)@.start,
            end: final(occurrence)@.end,
            ..old(occurrence)@
        }),
        may_stamp(entry.start_date_time@, final(occurrence)@.start),
        may_stamp(entry.end_date_time@, final(occurrence)@.end),
{
    let start = create_timestamp(entry.start_date_time.as_str());
    let end = create_timestamp(entry.end_date_time.as_str());
    set_times(occurrence, start, end);
}

/// What `create_timestamp` makes of `stamp`, or the empty text.
fn stamp_or_empty(stamp: &str) -> (text: String)
    ensures
        may_stamp(stamp@, text@),
{
    or_empty(create_timestamp(stamp))
}

/// The text that was found, or the empty text.
pub open spec fn text_or_empty(found: Option<String>) -> Seq<char> {
    match found {
        Some(text) => text@,
        None => Seq::empty(),
    }
}

/// The text that was found, or the empty text where none was.
pub fn or_empty(found: Option<String>) -> (text: String)
    ensures
        text@ == text_or_empty(found),
{
    match found {
        Some(text) => text,
        None => String::new(),
    }
}

/// Sets the start and the end of an occurrence to the times that were
/// found, each to the empty text where none was. The other fields stay.
pub fn set_times(occurrence: &mut Occurrence, start: Option<String>, end: Option<String>)
    ensures
        final(occurrence)@ == (OccurrenceView {
            start: text_or_empty(start),
            end: text_or_empty(end),
            ..old(occurrence)@
        }),
{
    occurrence.start = or_empty(start);
    occurrence.end = or_empty(end);
}

/// The occurrence of an entry, stamped with the present moment and with the
/// entry's own start and end as `create_timestamp` converts them. Which
/// entries give one, and every field but these three, is as `occurrence_of`
/// says. The first of the three is the stamp of some moment, each of the
/// other two is that or empty.
pub fn create_block_event(entry: &CalendarEntry, aliases: &AliasMap) -> (res: Result<
    Occurrence,
    SynthesisError,
>)
    ensures
        res is Ok <==> gives_occurrence(*entry),
        res matches Ok(occurrence) ==> occurrence@ == occurrence_of(
            *entry,
            aliases@,
            occurrence@.stamp,
            occurrence@.start,
            occurrence@.end,
        ),
        res matches Ok(occurrence) ==> {
            &&& is_stamp(occurrence@.stamp)
            &&& may_stamp(entry.start_date_time@, occurrence@.start)
            &&& may_stamp(entry.end_date_time@, occurrence@.end)
        },
        res matches Err(e) ==> e == (if has_room(entry.rooms@) {
            SynthesisError::NoEligibleTeacher
        } else {
            SynthesisError::NoEligibleRoom
        }),
{
    match occurrence_from(entry, aliases, current_stamp(), String::new(), String::new()) {
        Ok(mut occurrence) => {
            add_timestamps(&mut occurrence, entry);
            Ok(occurrence)
        },
        Err(e) => Err(e),
    }
}

/// The task of one homework item of a subject, for the time stamp given.
pub fn task_from(subject: &str, homework: &Homework, stamp: String) -> (task: Task)
    ensures
        task@ == task_of(subject@, *homework, stamp@),
{
    proof {
        reveal_strlit("T");
        reveal_strlit("-");
        reveal_strlit("");
        reveal_strlit("\u{1F3E0} ");
        reveal_strlit("\n");
        reveal_strlit("\\n");
        assert("T"@ =~= seq!['T']);
        assert("-"@ =~= seq!['-']);
        assert(""@ =~= Seq::<char>::empty());
        assert("\u{1F3E0} "@ =~= homework_mark());
        assert("\n"@ =~= seq!['\n']);
        assert("\\n"@ =~= seq!['\\', 'n']);
    }
    let pieces = split(homework.due_date_time.as_str(), "T");
    let due = replace(pieces[0].as_str(), "-", "");
    Task {
        group: subject.to_owned(),
        id: homework.id,
        stamp,
        due,
        summary: glue("\u{1F3E0} ", subject),
        description: replace(homework.text.as_str(), "\n", "\\n"),
    }
}

/// The tasks of an entry, one for each of its homework items and in their
/// order, under the entry's subject; `None` for an entry without homework.
/// Each task is stamped with its item's own time as `create_timestamp`
/// converts it, or with the empty text.
pub fn create_hw_events(entry: &CalendarEntry) -> (res: Option<(String, Vec<Task>)>)
    ensures
        res is None <==> entry.homeworks@.len() == 0,
        res matches Some((subject, tasks)) ==> {
            &&& subject@ == entry.subject.display_name@
            &&& tasks@.len() == entry.homeworks@.len()
            &&& forall|i: int|
                0 <= i < tasks@.len() ==> (#[trigger] tasks@[i])@ == task_of(
                    entry.subject.display_name@,
                    entry.homeworks@[i],
                    tasks@[i]@.stamp,
                ) && may_stamp(entry.homeworks@[i].date_time@, tasks@[i]@.stamp)
        },
{
    if entry.homeworks.len() == 0 {
        return None;
    }
    let subject = entry.subject.display_name.clone();
    let mut tasks: Vec<Task> = Vec::new();
    let mut i: usize = 0;
    while i < entry.homeworks.len()
        invariant
            i <= entry.homeworks.len(),
            subject@ == entry.subject.display_name@,
            tasks@.len() == i,
            forall|k: int|
                0 <= k < i ==> (#[trigger] tasks@[k])@ == task_of(
                    entry.subject.display_name@,
                    entry.homeworks@[k],
                    tasks@[k]@.stamp,
                ) && may_stamp(entry.homeworks@[k].date_time@, tasks@[k]@.stamp),
        decreases entry.homeworks.len() - i,
    {
        let homework = &entry.homeworks[i];
        let stamp = stamp_or_empty(homework.date_time.as_str());
        tasks.push(task_from(subject.as_str(), homework, stamp));
        i = i + 1;
    }
    Some((subject, tasks))
}

} // verus!
