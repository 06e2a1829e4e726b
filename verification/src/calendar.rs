//! Builds the calendar document that a reader asked for from a snapshot.
//!
//! The occurrences and tasks of the wanted groups become the events of the
//! document. The `ics` crate writes the document; this module decides what
//! goes into it and escapes what comes out.

use crate::events::{
    occurrence_views, task_views, Occurrence, OccurrenceStatus, OccurrenceView, Task, TaskView,
};
use crate::snapshot::{list_at, Snapshot};
use crate::text::{
    chars_of, contains, contains_seq, decimal, decimal_text, pair, pair_views, slice_of, views,
};
use vstd::prelude::*;
use vstd::string::*;

verus! {

/// One event of a calendar document: its identifier, the moment it was
/// made, and its further properties, each a name with a value.
#[derive(Debug, Clone, PartialEq, Eq)]
pub struct Record {
    pub uid: String,
    pub stamp: String,
    pub lines: Vec<(String, String)>,
}

impl View for Record {
    type V = (Seq<char>, Seq<char>, Seq<(Seq<char>, Seq<char>)>);

    open spec fn view(&self) -> (Seq<char>, Seq<char>, Seq<(Seq<char>, Seq<char>)>) {
        (self.uid@, self.stamp@, pair_views(self.lines@))
    }
}

/// The views of a list of records.
pub open spec fn record_views(records: Seq<Record>) -> Seq<
    (Seq<char>, Seq<char>, Seq<(Seq<char>, Seq<char>)>),
> {
    Seq::new(records.len(), |i: int| records[i]@)
}

/// The text of the calendar document that `ics` writes for a version, a
/// product identifier and a list of events, each given by its identifier,
/// its stamp and its further properties in their order.
pub uninterp spec fn ics_calendar_text(
    version: Seq<char>,
    product: Seq<char>,
    events: Seq<(Seq<char>, Seq<char>, Seq<(Seq<char>, Seq<char>)>)>,
) -> Seq<char>;

/// The word of a status in a calendar document.
pub open spec fn status_word(status: OccurrenceStatus) -> Seq<char> {
    match status {
        OccurrenceStatus::Confirmed => "CONFIRMED"@,
        OccurrenceStatus::Cancelled => "CANCELLED"@,
    }
}

/// The event of an occurrence.
pub open spec fn occurrence_record(o: OccurrenceView) -> (
    Seq<char>,
    Seq<char>,
    Seq<(Seq<char>, Seq<char>)>,
) {
    (
        decimal_text(o.id),
        o.stamp,
        seq![
            ("STATUS"@, status_word(o.status)),
            ("SUMMARY"@, o.summary),
            ("DESCRIPTION"@, o.description),
            ("LOCATION"@, o.location),
            ("DTSTART"@, o.start),
            ("DTEND"@, o.end),
        ],
    )
}

/// The event of a task: it begins and ends on the due day.
pub open spec fn task_record(t: TaskView) -> (Seq<char>, Seq<char>, Seq<(Seq<char>, Seq<char>)>) {
    (
        decimal_text(t.id),
        t.stamp,
        seq![
            ("DTSTART"@, t.due),
            ("DTEND"@, t.due),
            ("SUMMARY"@, t.summary),
            ("DESCRIPTION"@, t.description),
        ],
    )
}

/// The events of a list of occurrences.
pub open spec fn occurrence_records(items: Seq<OccurrenceView>) -> Seq<
    (Seq<char>, Seq<char>, Seq<(Seq<char>, Seq<char>)>),
> {
    Seq::new(items.len(), |i: int| occurrence_record(items[i]))
}

/// The events of a list of tasks.
pub open spec fn task_records(items: Seq<TaskView>) -> Seq<
    (Seq<char>, Seq<char>, Seq<(Seq<char>, Seq<char>)>),
> {
    Seq::new(items.len(), |i: int| task_record(items[i]))
}

/// The events that a group contributes: its occurrences, then its tasks. A
/// name that the snapshot does not know contributes none.
pub open spec fn group_records(snapshot: Snapshot, group: Seq<char>) -> Seq<
    (Seq<char>, Seq<char>, Seq<(Seq<char>, Seq<char>)>),
> {
    occurrence_records(list_at(snapshot.blocks(), group)) + task_records(
        list_at(snapshot.task_lists(), group),
    )
}

/// The events that a list of group names contributes, name after name.
pub open spec fn selected_records(snapshot: Snapshot, groups: Seq<Seq<char>>) -> Seq<
    (Seq<char>, Seq<char>, Seq<(Seq<char>, Seq<char>)>),
>
    decreases groups.len(),
{
    if groups.len() == 0 {
        Seq::empty()
    } else {
        selected_records(snapshot, groups.drop_last()) + group_records(snapshot, groups.last())
    }
}

/// The names of a list, each once: a name that stands earlier in the list
/// is left out where it comes again.
pub open spec fn distinct(names: Seq<Seq<char>>) -> Seq<Seq<char>>
    decreases names.len(),
{
    if names.len() == 0 {
        Seq::empty()
    } else {
        let earlier = distinct(names.drop_last());
        if earlier.contains(names.last()) {
            earlier
        } else {
            earlier.push(names.last())
        }
    }
}

/// The groups of a request: the group `default` and the requested groups,
/// each once.
pub open spec fn asked_groups(requested: Seq<Seq<char>>) -> Seq<Seq<char>> {
    distinct(seq!["default"@] + requested)
}

/// What is written for one character of a document: the character itself,
/// behind a backslash where it is a comma or a semicolon.
pub open spec fn escaped_char(c: char) -> Seq<char> {
    if c == ',' || c == ';' {
        seq!['\\', c]
    } else {
        seq![c]
    }
}

/// The text of a document with a backslash put before every comma and
/// every semicolon.
pub open spec fn escaped_document(raw: Seq<char>) -> Seq<char>
    decreases raw.len(),
{
    if raw.len() == 0 {
        Seq::empty()
    } else {
        escaped_document(raw.drop_last()) + escaped_char(raw.last())
    }
}

/// Every comma and every semicolon of the text has a backslash before it.
pub open spec fn guarded(text: Seq<char>) -> bool {
    forall|i: int|
        0 <= i < text.len() && (#[trigger] text[i] == ',' || text[i] == ';') ==> i > 0 && text[i
            - 1] == '\\'
}

/// In an escaped document no comma and no semicolon stands without a
/// backslash before it.
pub proof fn lemma_escaped_is_guarded(raw: Seq<char>)
    ensures
        guarded(escaped_document(raw)),
    decreases raw.len(),
{
    if raw.len() > 0 {
        lemma_escaped_is_guarded(raw.drop_last());
        let head = escaped_document(raw.drop_last());
        let all = escaped_document(raw);
        assert forall|i: int|
            0 <= i < all.len() && (#[trigger] all[i] == ',' || all[i] == ';') implies i > 0 && all[i
                - 1] == '\\' by {
            if i < head.len() {
                assert(all[i] == head[i]);
                assert(head[i] == ',' || head[i] == ';');
                assert(all[i - 1] == head[i - 1]);
            }
        }
    }
}


/// The mark of an additional period stands in one of the texts of the
/// occurrence.
pub open spec fn carries_addition_mark(o: OccurrenceView) -> bool {
    ||| contains_seq(o.summary, "\u{2795}"@)
    ||| contains_seq(o.description, "\u{2795}"@)
    ||| contains_seq(o.location, "\u{2795}"@)
}

/// A group is shown in the calendar of a key when its name holds the word
/// `default`, or when one of its occurrences is no additional period.
pub open spec fn shown(snapshot: Snapshot, group: Seq<char>) -> bool {
    ||| contains_seq(group, "default"@)
    ||| exists|i: int|
        0 <= i < list_at(snapshot.blocks(), group).len() && !carries_addition_mark(
            #[trigger] list_at(snapshot.blocks(), group)[i],
        )
}

/// The names of a list whose groups are shown, in their order.
pub open spec fn shown_names(snapshot: Snapshot, names: Seq<Seq<char>>) -> Seq<Seq<char>>
    decreases names.len(),
{
    if names.len() == 0 {
        Seq::empty()
    } else if shown(snapshot, names.last()) {
        shown_names(snapshot, names.drop_last()).push(names.last())
    } else {
        shown_names(snapshot, names.drop_last())
    }
}

/// A name that the snapshot does not know contributes no event.
pub proof fn lemma_unknown_group_contributes_nothing(snapshot: Snapshot, group: Seq<char>)
    requires
        !snapshot.blocks().contains_key(group),
        !snapshot.task_lists().contains_key(group),
    ensures
        group_records(snapshot, group) == Seq::<
            (Seq<char>, Seq<char>, Seq<(Seq<char>, Seq<char>)>),
        >::empty(),
{
    assert(group_records(snapshot, group) =~= Seq::empty());
}

/// Asking for a name that the snapshot does not know, after any others,
/// leaves the events as they are without it.
pub proof fn lemma_unknown_group_changes_nothing(
    snapshot: Snapshot,
    groups: Seq<Seq<char>>,
    unknown: Seq<char>,
)
    requires
        !snapshot.blocks().contains_key(unknown),
        !snapshot.task_lists().contains_key(unknown),
    ensures
        selected_records(snapshot, groups.push(unknown)) == selected_records(snapshot, groups),
{
    lemma_unknown_group_contributes_nothing(snapshot, unknown);
    assert(groups.push(unknown).drop_last() =~= groups);
    assert(selected_records(snapshot, groups.push(unknown)) =~= selected_records(snapshot, groups));
}

/// In a list made distinct no name stands twice, and the names are those
/// of the list.
pub proof fn lemma_distinct_each_once(names: Seq<Seq<char>>)
    ensures
        distinct(names).no_duplicates(),
        forall|name: Seq<char>| distinct(names).contains(name) <==> names.contains(name),
    decreases names.len(),
{
    if names.len() > 0 {
        let rest = names.drop_last();
        let last = names.last();
        let earlier = distinct(rest);
        lemma_distinct_each_once(rest);
        assert forall|name: Seq<char>| distinct(names).contains(name) <==> names.contains(
            name,
        ) by {
            if names.contains(name) {
                let i = choose|i: int| 0 <= i < names.len() && names[i] == name;
                if i < rest.len() {
                    assert(rest[i] == name);
                    assert(rest.contains(name));
                }
            }
            if rest.contains(name) {
                let i = choose|i: int| 0 <= i < rest.len() && rest[i] == name;
                assert(names[i] == name);
            }
            assert(names[names.len() - 1] == last);
            if !earlier.contains(last) {
                let all = earlier.push(last);
                assert(all[earlier.len() as int] == last);
                if earlier.contains(name) {
                    let i = choose|i: int| 0 <= i < earlier.len() && earlier[i] == name;
                    assert(all[i] == name);
                }
                if all.contains(name) {
                    let i = choose|i: int| 0 <= i < all.len() && all[i] == name;
                    if i < earlier.len() {
                        assert(earlier[i] == name);
                    }
                }
            }
        }
        if !earlier.contains(last) {
            let all = earlier.push(last);
            assert forall|i: int, j: int|
                0 <= i < all.len() && 0 <= j < all.len() && i != j implies all[i] != all[j] by {
                if i < earlier.len() && j < earlier.len() {
                } else if i < earlier.len() {
                    assert(earlier[i] != last);
                } else {
                    assert(earlier[j] != last);
                }
            }
        }
    }
}

/// Of a list in which no name stands twice, the names that are shown are
/// names of the list, and none of them stands twice.
pub proof fn lemma_shown_names_each_once(snapshot: Snapshot, names: Seq<Seq<char>>)
    requires
        names.no_duplicates(),
    ensures
        shown_names(snapshot, names).no_duplicates(),
        forall|name: Seq<char>|
            shown_names(snapshot, names).contains(name) ==> names.contains(name),
    decreases names.len(),
{
    if names.len() > 0 {
        let rest = names.drop_last();
        let last = names.last();
        let earlier = shown_names(snapshot, rest);
        lemma_shown_names_each_once(snapshot, rest);
        assert forall|name: Seq<char>| rest.contains(name) implies names.contains(name)
            && name != last by {
            let i = choose|i: int| 0 <= i < rest.len() && rest[i] == name;
            assert(names[i] == name);
            assert(names[i] != names[names.len() - 1]);
        }
        assert(names[names.len() - 1] == last);
        if shown(snapshot, last) {
            let all = earlier.push(last);
            assert forall|name: Seq<char>| all.contains(name) implies names.contains(name) by {
                let i = choose|i: int| 0 <= i < all.len() && all[i] == name;
                if i < earlier.len() {
                    assert(earlier[i] == name);
                    assert(earlier.contains(name));
                }
            }
            assert forall|i: int, j: int|
                0 <= i < all.len() && 0 <= j < all.len() && i != j implies all[i] != all[j] by {
                if i < earlier.len() && j < earlier.len() {
                } else if i < earlier.len() {
                    assert(earlier.contains(earlier[i]));
                    assert(rest.contains(earlier[i]));
                    assert(earlier[i] != last);
                } else {
                    assert(earlier.contains(earlier[j]));
                    assert(rest.contains(earlier[j]));
                    assert(earlier[j] != last);
                }
            }
        }
    }
}

/// Asking also for a name that the snapshot does not know, after any
/// others, leaves the events of a request as they are without it.
pub proof fn lemma_unknown_request_changes_nothing(
    snapshot: Snapshot,
    requested: Seq<Seq<char>>,
    unknown: Seq<char>,
)
    requires
        !snapshot.blocks().contains_key(unknown),
        !snapshot.task_lists().contains_key(unknown),
    ensures
        selected_records(snapshot, asked_groups(requested.push(unknown))) == selected_records(
            snapshot,
            asked_groups(requested),
        ),
{
    let names = seq!["default"@] + requested;
    assert(seq!["default"@] + requested.push(unknown) =~= names.push(unknown));
    assert(names.push(unknown).drop_last() =~= names);
    lemma_unknown_group_changes_nothing(snapshot, distinct(names), unknown);
}

/// Writes a calendar document with `ics`: `ICalendar::new` with the version
/// and the product identifier, for each record `Event::new` with its
/// identifier and stamp and `Event::push` with a `Property::new` for each
/// of its lines, then `ICalendar::add_event`, and at the end the calendar's
/// `to_string`. The text depends on these values alone; it is the one that
/// `ics_calendar_text` names.
#[verifier::external_body]
fn render_calendar(version: &str, product: &str, events: &Vec<Record>) -> (text: String)
    ensures
        text@ == ics_calendar_text(version@, product@, record_views(events@)),
{
    let mut calendar = ics::ICalendar::new(version, product);
    for record in events.iter() {
        let mut event = ics::Event::new(record.uid.clone(), record.stamp.clone());
        for line in record.lines.iter() {
            event.push(ics::components::Property::new(line.0.clone(), line.1.clone()));
        }
        calendar.add_event(event);
    }
    calendar.to_string()
}

/// The event of an occurrence.
pub fn record_of_occurrence(occurrence: &Occurrence) -> (record: Record)
    ensures
        record@ == occurrence_record(occurrence@),
{
    let word = match occurrence.status {
        OccurrenceStatus::Confirmed => "CONFIRMED",
        OccurrenceStatus::Cancelled => "CANCELLED",
    };
    let mut lines: Vec<(String, String)> = Vec::new();
    lines.push(pair("STATUS", word.to_owned()));
    lines.push(pair("SUMMARY", occurrence.summary.clone()));
    lines.push(pair("DESCRIPTION", occurrence.description.clone()));
    lines.push(pair("LOCATION", occurrence.location.clone()));
    lines.push(pair("DTSTART", occurrence.start.clone()));
    lines.push(pair("DTEND", occurrence.end.clone()));
    let record = Record { uid: decimal(occurrence.id), stamp: occurrence.stamp.clone(), lines };
    assert(record@.2 =~= occurrence_record(occurrence@).2);
    record
}

/// The event of a task.
pub fn record_of_task(task: &Task) -> (record: Record)
    ensures
        record@ == task_record(task@),
{
    let mut lines: Vec<(String, String)> = Vec::new();
    lines.push(pair("DTSTART", task.due.clone()));
    lines.push(pair("DTEND", task.due.clone()));
    lines.push(pair("SUMMARY", task.summary.clone()));
    lines.push(pair("DESCRIPTION", task.description.clone()));
    let record = Record { uid: decimal(task.id), stamp: task.stamp.clone(), lines };
    assert(record@.2 =~= task_record(task@).2);
    record
}

/// Puts the events of a group behind `records`: its occurrences, then its
/// tasks. A name that the snapshot does not know adds nothing.
pub fn add_to_calendar(records: &mut Vec<Record>, data: &Snapshot, block_name: &str)
    ensures
        record_views(final(records)@) == record_views(old(records)@) + group_records(
            *data,
            block_name@,
        ),
{
    let ghost start = record_views(records@);
    let ghost blocks = list_at(data.blocks(), block_name@);
    match data.occurrences_of(block_name) {
        Some(items) => {
            let mut i: usize = 0;
            assert(record_views(records@) =~= start + occurrence_records(blocks.take(0)));
            while i < items.len()
                invariant
                    i <= items.len(),
                    occurrence_views(items@) == blocks,
                    record_views(records@) == start + occurrence_records(blocks.take(i as int)),
                decreases items.len() - i,
            {
                let ghost before = record_views(records@);
                records.push(record_of_occurrence(&items[i]));
                proof {
                    assert(record_views(records@) =~= before.push(
                        occurrence_record(blocks[i as int]),
                    ));
                    assert(occurrence_records(blocks.take(i + 1)) =~= occurrence_records(
                        blocks.take(i as int),
                    ).push(occurrence_record(blocks[i as int])));
                    assert(record_views(records@) =~= start + occurrence_records(
                        blocks.take(i + 1),
                    ));
                }
                i = i + 1;
            }
            assert(blocks.take(items.len() as int) =~= blocks);
        },
        None => {
            assert(record_views(records@) =~= start + occurrence_records(blocks));
        },
    }
    let ghost middle = record_views(records@);
    let ghost tasks = list_at(data.task_lists(), block_name@);
    match data.tasks_of(block_name) {
        Some(items) => {
            let mut i: usize = 0;
            assert(record_views(records@) =~= middle + task_records(tasks.take(0)));
            while i < items.len()
                invariant
                    i <= items.len(),
                    task_views(items@) == tasks,
                    record_views(records@) == middle + task_records(tasks.take(i as int)),
                decreases items.len() - i,
            {
                let ghost before = record_views(records@);
                records.push(record_of_task(&items[i]));
                proof {
                    assert(record_views(records@) =~= before.push(task_record(tasks[i as int])));
                    assert(task_records(tasks.take(i + 1)) =~= task_records(
                        tasks.take(i as int),
                    ).push(task_record(tasks[i as int])));
                    assert(record_views(records@) =~= middle + task_records(tasks.take(i + 1)));
                }
                i = i + 1;
            }
            assert(tasks.take(items.len() as int) =~= tasks);
        },
        None => {
            assert(record_views(records@) =~= middle + task_records(tasks));
        },
    }
    assert(record_views(records@) =~= start + group_records(*data, block_name@));
}

/// Puts the events of each of the named groups behind `records`, name after
/// name as the list has them.
fn add_each(records: &mut Vec<Record>, data: &Snapshot, groups: &Vec<String>)
    ensures
        record_views(final(records)@) == record_views(old(records)@) + selected_records(
            *data,
            views(groups@),
        ),
{
    let ghost start = record_views(records@);
    let mut i: usize = 0;
    assert(record_views(records@) =~= start + selected_records(*data, views(groups@).take(0)));
    while i < groups.len()
        invariant
            i <= groups.len(),
            record_views(records@) == start + selected_records(
                *data,
                views(groups@).take(i as int),
            ),
        decreases groups.len() - i,
    {
        proof {
            let next = views(groups@).take(i + 1);
            assert(next.drop_last() =~= views(groups@).take(i as int));
            assert(next.last() == groups@[i as int]@);
        }
        add_to_calendar(records, data, groups[i].as_str());
        assert(record_views(records@) =~= start + selected_records(
            *data,
            views(groups@).take(i + 1),
        ));
        i = i + 1;
    }
    assert(views(groups@).take(groups.len() as int) =~= views(groups@));
}

/// Tells whether a name is among the names of a list.
fn holds_name(names: &Vec<String>, name: &String) -> (b: bool)
    ensures
        b == views(names@).contains(name@),
{
    let mut i: usize = 0;
    while i < names.len()
        invariant
            i <= names.len(),
            forall|j: int| 0 <= j < i ==> views(names@)[j] != name@,
        decreases names.len() - i,
    {
        if names[i] == *name {
            assert(views(names@)[i as int] == name@);
            return true;
        }
        i = i + 1;
    }
    false
}

/// The names of a list, each once, in the order in which they first stand.
pub fn distinct_names(names: &Vec<String>) -> (each: Vec<String>)
    ensures
        views(each@) == distinct(views(names@)),
{
    let mut each: Vec<String> = Vec::new();
    let mut i: usize = 0;
    assert(views(each@) =~= distinct(views(names@).take(0)));
    while i < names.len()
        invariant
            i <= names.len(),
            views(each@) == distinct(views(names@).take(i as int)),
        decreases names.len() - i,
    {
        let ghost before = views(each@);
        proof {
            let next = views(names@).take(i + 1);
            assert(next.drop_last() =~= views(names@).take(i as int));
            assert(next.last() == names@[i as int]@);
        }
        if !holds_name(&each, &names[i]) {
            each.push(names[i].clone());
            assert(views(each@) =~= before.push(names@[i as int]@));
        }
        i = i + 1;
    }
    assert(views(names@).take(names.len() as int) =~= views(names@));
    each
}

/// Puts the events of the named groups behind `records`, group after group
/// and each group once, however often the list names it.
pub fn add_groups(records: &mut Vec<Record>, data: &Snapshot, groups: &Vec<String>)
    ensures
        record_views(final(records)@) == record_views(old(records)@) + selected_records(
            *data,
            distinct(views(groups@)),
        ),
{
    let each = distinct_names(groups);
    add_each(records, data, &each);
}

/// Puts a backslash before every comma and every semicolon of a document.
pub fn escape_document(raw: &str) -> (text: String)
    ensures
        text@ == escaped_document(raw@),
        guarded(text@),
{
    proof {
        reveal_strlit("\\,");
        reveal_strlit("\\;");
        assert("\\,"@ =~= seq!['\\', ',']);
        assert("\\;"@ =~= seq!['\\', ';']);
        lemma_escaped_is_guarded(raw@);
    }
    let cs = chars_of(raw);
    let mut text = String::new();
    let mut begin: usize = 0;
    let mut i: usize = 0;
    assert(text@ + raw@.subrange(0, 0) =~= escaped_document(raw@.take(0)));
    while i < cs.len()
        invariant
            begin <= i <= cs.len(),
            cs@ == raw@,
            "\\,"@ == seq!['\\', ','],
            "\\;"@ == seq!['\\', ';'],
            text@ + raw@.subrange(begin as int, i as int) == escaped_document(raw@.take(i as int)),
        decreases cs.len() - i,
    {
        let ghost before = text@ + raw@.subrange(begin as int, i as int);
        let c = cs[i];
        proof {
            assert(raw@.take(i + 1).drop_last() =~= raw@.take(i as int));
            assert(raw@.take(i + 1).last() == c);
        }
        if c == ',' || c == ';' {
            let run = slice_of(raw, begin, i);
            text.append(run.as_str());
            if c == ',' {
                text.append("\\,");
            } else {
                text.append("\\;");
            }
            begin = i + 1;
            assert(text@ + raw@.subrange(begin as int, i + 1) =~= before + escaped_char(c));
        } else {
            assert(text@ + raw@.subrange(begin as int, i + 1) =~= before + escaped_char(c));
        }
        i = i + 1;
    }
    let run = slice_of(raw, begin, cs.len());
    text.append(run.as_str());
    assert(raw@.take(raw@.len() as int) =~= raw@);
    text
}

/// The calendar document of a list of events: what `ics` writes for them as
/// version 2.0 under the product identifier `ics-rs`, escaped.
pub fn document_of(records: &Vec<Record>) -> (document: String)
    ensures
        document@ == escaped_document(
            ics_calendar_text("2.0"@, "ics-rs"@, record_views(records@)),
        ),
        guarded(document@),
{
    let raw = render_calendar("2.0", "ics-rs", records);
    escape_document(raw.as_str())
}

/// The calendar document of the group `default` and of the requested
/// groups: the events of each of them once, `default` first and the others
/// in the order in which they are first asked for. A requested name that
/// the snapshot does not know contributes nothing.
pub fn assemble(snapshot: &Snapshot, requested: &Vec<String>) -> (document: String)
    ensures
        document@ == escaped_document(
            ics_calendar_text(
                "2.0"@,
                "ics-rs"@,
                selected_records(*snapshot, asked_groups(views(requested@))),
            ),
        ),
        guarded(document@),
{
    let mut names: Vec<String> = Vec::new();
    names.push("default".to_owned());
    let mut i: usize = 0;
    assert(views(names@) =~= seq!["default"@] + views(requested@).take(0));
    while i < requested.len()
        invariant
            i <= requested.len(),
            views(names@) == seq!["default"@] + views(requested@).take(i as int),
        decreases requested.len() - i,
    {
        let ghost before = views(names@);
        names.push(requested[i].clone());
        assert(views(names@) =~= before.push(requested@[i as int]@));
        assert(views(names@) =~= seq!["default"@] + views(requested@).take(i + 1));
        i = i + 1;
    }
    assert(views(requested@).take(requested.len() as int) =~= views(requested@));
    let mut records: Vec<Record> = Vec::new();
    add_groups(&mut records, snapshot, &names);
    assert(record_views(records@) =~= selected_records(*snapshot, asked_groups(views(requested@))));
    document_of(&records)
}

/// Puts the events of the groups that a teacher is in charge of behind
/// `records`, group after group as the snapshot lists them, each group
/// once.
pub fn add_for_teacher(records: &mut Vec<Record>, data: &Snapshot, teacher: &str)
    ensures
        record_views(final(records)@) == record_views(old(records)@) + selected_records(
            *data,
            data.teacher_groups(teacher@),
        ),
        data.teacher_groups(teacher@).no_duplicates(),
{
    let groups = data.groups_of_teacher(teacher);
    add_each(records, data, &groups);
}

/// Tells whether the mark of an additional period stands in one of the
/// texts of the occurrence.
pub fn has_addition_mark(occurrence: &Occurrence) -> (b: bool)
    ensures
        b == carries_addition_mark(occurrence@),
{
    contains(occurrence.summary.as_str(), "\u{2795}") || contains(
        occurrence.description.as_str(),
        "\u{2795}",
    ) || contains(occurrence.location.as_str(), "\u{2795}")
}

/// Tells whether a group is shown in the calendar of a key.
pub fn is_shown(snapshot: &Snapshot, group: &str) -> (b: bool)
    ensures
        b == shown(*snapshot, group@),
{
    if contains(group, "default") {
        return true;
    }
    match snapshot.occurrences_of(group) {
        Some(items) => {
            let mut i: usize = 0;
            while i < items.len()
                invariant
                    i <= items.len(),
                    occurrence_views(items@) == list_at(snapshot.blocks(), group@),
                    forall|j: int|
                        0 <= j < i ==> carries_addition_mark(
                            #[trigger] list_at(snapshot.blocks(), group@)[j],
                        ),
                decreases items.len() - i,
            {
                if !has_addition_mark(&items[i]) {
                    assert(!carries_addition_mark(list_at(snapshot.blocks(), group@)[i as int]));
                    return true;
                }
                i = i + 1;
            }
            false
        },
        None => false,
    }
}

/// The calendar document of a key: the events of every group that has
/// occurrences and is shown, group after group as the snapshot lists them,
/// each group once.
pub fn assemble_shown(snapshot: &Snapshot) -> (document: String)
    ensures
        document@ == escaped_document(
            ics_calendar_text(
                "2.0"@,
                "ics-rs"@,
                selected_records(*snapshot, shown_names(*snapshot, snapshot.names())),
            ),
        ),
        shown_names(*snapshot, snapshot.names()).no_duplicates(),
        guarded(document@),
{
    let names = snapshot.group_names();
    proof {
        lemma_shown_names_each_once(*snapshot, snapshot.names());
    }
    let mut wanted: Vec<String> = Vec::new();
    let mut i: usize = 0;
    assert(views(wanted@) =~= shown_names(*snapshot, views(names@).take(0)));
    while i < names.len()
        invariant
            i <= names.len(),
            views(wanted@) == shown_names(*snapshot, views(names@).take(i as int)),
        decreases names.len() - i,
    {
        let ghost before = views(wanted@);
        proof {
            let next = views(names@).take(i + 1);
            assert(next.drop_last() =~= views(names@).take(i as int));
            assert(next.last() == names@[i as int]@);
        }
        if is_shown(snapshot, names[i].as_str()) {
            wanted.push(names[i].clone());
            assert(views(wanted@) =~= before.push(names@[i as int]@));
        }
        i = i + 1;
    }
    assert(views(names@).take(names.len() as int) =~= views(names@));
    let mut records: Vec<Record> = Vec::new();
    add_each(&mut records, snapshot, &wanted);
    assert(record_views(records@) =~= selected_records(*snapshot, views(wanted@)));
    document_of(&records)
}

} // verus!
